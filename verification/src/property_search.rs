//! The law of the property search: it finds a name exactly where the stream
//! of the element holds the name at depth one.
use vstd::prelude::*;
use crate::balance::{is_flat, lemma_primitive_kind};
use crate::comments::{lemma_read_comments_and_whitespace, spec_read_comments_and_whitespace};
use crate::elements::{
    end_array,
    end_object,
    lemma_read_element,
    lemma_read_item,
    lemma_read_property,
    lemma_read_property_name,
    may_enter,
    property_name,
    spec_read_array,
    spec_read_array_items,
    spec_read_braceless_object,
    spec_read_braceless_object_or_end_of_primitive,
    spec_read_braceless_properties,
    spec_read_element,
    spec_read_item,
    spec_read_object,
    spec_read_object_properties,
    spec_read_property,
    spec_read_property_name,
    start_array,
    start_object,
};
use crate::json_token_type::JsonTokenType;
use crate::jsonh_reader::is_char_at;
use crate::jsonh_reader_options::JsonhReaderOptions;
use crate::jsonh_token::{JsonhTokenView, TokenStream};
use crate::numbers::{lemma_read_primitive_element, spec_read_primitive_element};
use crate::parsing::{spec_find_property, spec_find_property_value};
use crate::strings::{lemma_read_string, spec_read_string};

verus! {

/// By how much the tokens `tokens` change the nesting depth: the number of
/// start tokens among them less the number of end tokens.
pub open spec fn net_depth(tokens: Seq<JsonhTokenView>) -> int
    decreases tokens.len(),
{
    if tokens.len() == 0 {
        0
    } else {
        let rest = tokens.subrange(1, tokens.len() as int);
        if tokens[0].json_type.is_start() {
            net_depth(rest) + 1
        } else if tokens[0].json_type.is_end() {
            net_depth(rest) - 1
        } else {
            net_depth(rest)
        }
    }
}

/// Whether one of the tokens `tokens` is the name `name` of a property at
/// the nesting depth one, where the depth before the tokens is `depth`.
pub open spec fn names_property(tokens: Seq<JsonhTokenView>, name: Seq<char>, depth: int) -> bool
    decreases tokens.len(),
{
    if tokens.len() == 0 {
        false
    } else {
        let rest = tokens.subrange(1, tokens.len() as int);
        if tokens[0].json_type == JsonTokenType::PropertyName && depth == 1 && tokens[0].value
            == name {
            true
        } else if tokens[0].json_type.is_start() {
            names_property(rest, name, depth + 1)
        } else if tokens[0].json_type.is_end() {
            names_property(rest, name, depth - 1)
        } else {
            names_property(rest, name, depth)
        }
    }
}

/// Whether none of `tokens` is the name of a property.
pub open spec fn has_no_name(tokens: Seq<JsonhTokenView>) -> bool {
    forall|i: int|
        0 <= i < tokens.len() ==> (#[trigger] tokens[i]).json_type != JsonTokenType::PropertyName
}

/// Whether the stream `out`, read at the depth `depth`, names no property
/// `name` at depth one, and changes the depth by `change` where it ended
/// well.
pub open spec fn passes_by(out: TokenStream, name: Seq<char>, depth: int, change: int) -> bool {
    &&& !names_property(out.tokens, name, depth)
    &&& out.error is None ==> net_depth(out.tokens) == change
}

/// Tokens in a row name a property where the first do, or the second do at
/// the depth that the first leave; and their changes of the depth add up.
pub proof fn lemma_names_concat(
    first: Seq<JsonhTokenView>,
    second: Seq<JsonhTokenView>,
    name: Seq<char>,
    depth: int,
)
    ensures
        names_property(first + second, name, depth) == (names_property(first, name, depth)
            || names_property(second, name, depth + net_depth(first))),
        net_depth(first + second) == net_depth(first) + net_depth(second),
    decreases first.len(),
{
    if first.len() == 0 {
        assert(first + second =~= second);
    } else {
        let all = first + second;
        assert(all[0] == first[0]);
        assert(all.subrange(1, all.len() as int) =~= first.subrange(1, first.len() as int)
            + second);
        let rest = first.subrange(1, first.len() as int);
        if first[0].json_type.is_start() {
            lemma_names_concat(rest, second, name, depth + 1);
        } else if first[0].json_type.is_end() {
            lemma_names_concat(rest, second, name, depth - 1);
        } else {
            lemma_names_concat(rest, second, name, depth);
        }
    }
}

/// One token names a property where it is the name at depth one, and changes
/// the depth by one where it starts or ends an object or array.
pub proof fn lemma_names_single(token: JsonhTokenView, name: Seq<char>, depth: int)
    ensures
        names_property(seq![token], name, depth) == (token.json_type
            == JsonTokenType::PropertyName && depth == 1 && token.value == name),
        net_depth(seq![token]) == if token.json_type.is_start() {
            1int
        } else if token.json_type.is_end() {
            -1int
        } else {
            0int
        },
{
    let tokens = seq![token];
    assert(tokens.subrange(1, tokens.len() as int) =~= Seq::<JsonhTokenView>::empty());
    reveal_with_fuel(names_property, 2);
    reveal_with_fuel(net_depth, 2);
}

/// Flat tokens leave the depth as it is, and name no property at depth one
/// where the depth is another or no name is among them.
pub proof fn lemma_names_flat(tokens: Seq<JsonhTokenView>, name: Seq<char>, depth: int)
    requires
        is_flat(tokens),
    ensures
        net_depth(tokens) == 0,
        depth != 1 || has_no_name(tokens) ==> !names_property(tokens, name, depth),
    decreases tokens.len(),
{
    if tokens.len() > 0 {
        let rest = tokens.subrange(1, tokens.len() as int);
        assert(!tokens[0].json_type.is_start() && !tokens[0].json_type.is_end());
        assert forall|i: int| 0 <= i < rest.len() implies !(#[trigger] rest[i]).json_type.is_start()
            && !rest[i].json_type.is_end() by {
            assert(rest[i] == tokens[i + 1]);
        }
        if has_no_name(tokens) {
            assert(tokens[0].json_type != JsonTokenType::PropertyName);
            assert forall|i: int| 0 <= i < rest.len() implies (#[trigger] rest[i]).json_type
                != JsonTokenType::PropertyName by {
                assert(rest[i] == tokens[i + 1]);
            }
        }
        lemma_names_flat(rest, name, depth);
    }
}

/// The tokens of comments and whitespace are flat and hold no name.
pub proof fn lemma_comments_unnamed(s: Seq<char>, pos: int, depth: int, v2: bool)
    requires
        0 <= pos <= s.len(),
    ensures
        is_flat(spec_read_comments_and_whitespace(s, pos, depth, v2).tokens),
        has_no_name(spec_read_comments_and_whitespace(s, pos, depth, v2).tokens),
        forall|name: Seq<char>, at: int|
            !(#[trigger] names_property(
                spec_read_comments_and_whitespace(s, pos, depth, v2).tokens,
                name,
                at,
            )),
        net_depth(spec_read_comments_and_whitespace(s, pos, depth, v2).tokens) == 0,
{
    lemma_read_comments_and_whitespace(s, pos, depth, v2);
    let tokens = spec_read_comments_and_whitespace(s, pos, depth, v2).tokens;
    assert forall|name: Seq<char>, at: int| !(#[trigger] names_property(tokens, name, at)) by {
        lemma_names_flat(tokens, name, at);
    }
    lemma_names_flat(tokens, Seq::empty(), 0);
}

/// The stream of a property name that was read ends with the token of the
/// name, after comments; one that failed holds comments only.
pub proof fn lemma_property_name_tokens(s: Seq<char>, pos: int, depth: int, v2: bool, name: Seq<char>, at: int)
    requires
        0 <= pos <= s.len(),
    ensures
        is_flat(spec_read_property_name(s, pos, depth, v2).tokens),
        net_depth(spec_read_property_name(s, pos, depth, v2).tokens) == 0,
        spec_read_property_name(s, pos, depth, v2).error is Some ==> !names_property(
            spec_read_property_name(s, pos, depth, v2).tokens,
            name,
            at,
        ),
        spec_read_property_name(s, pos, depth, v2).error is None ==> {
            &&& spec_read_property_name(s, pos, depth, v2).tokens.len() > 0
            &&& names_property(spec_read_property_name(s, pos, depth, v2).tokens, name, at) == (at
                == 1 && spec_read_property_name(s, pos, depth, v2).tokens.last().value == name)
        },
{
    let string = spec_read_string(s, pos, v2);
    lemma_read_string(s, pos, v2);
    if string.result is Ok {
        let lead = spec_read_comments_and_whitespace(s, string.pos, depth, v2);
        lemma_comments_unnamed(s, string.pos, depth, v2);
        let last = property_name(string.result->Ok_0.value);
        lemma_names_single(last, name, at);
        lemma_names_concat(lead.tokens, seq![last], name, at);
        lemma_names_concat(lead.tokens, Seq::empty(), name, at);
        if lead.error is None && is_char_at(s, lead.pos, ':') {
            assert((lead.tokens + seq![last]).last() == last);
        }
    } else {
        lemma_names_flat(Seq::empty(), name, at);
    }
}

/// The stream of an element inside an object or array names no property at
/// depth one, and leaves the depth as it is.
pub proof fn lemma_element_passes_by(
    s: Seq<char>,
    pos: int,
    depth: int,
    options: JsonhReaderOptions,
    name: Seq<char>,
    at: int,
)
    requires
        0 <= pos <= s.len(),
        at >= 1,
    ensures
        passes_by(spec_read_element(s, pos, depth, options), name, at, 0),
    decreases s.len() - pos, 7nat,
{
    let lead = spec_read_comments_and_whitespace(s, pos, depth, options.v2());
    lemma_read_comments_and_whitespace(s, pos, depth, options.v2());
    lemma_comments_unnamed(s, pos, depth, options.v2());
    if lead.error is None {
        lemma_read_primitive_element(s, lead.pos, options.v2());
        if is_char_at(s, lead.pos, '{') {
            lemma_object_passes_by(s, lead.pos, depth, options, name, at);
            lemma_names_concat(
                lead.tokens,
                spec_read_object(s, lead.pos, depth, options).tokens,
                name,
                at,
            );
        } else if is_char_at(s, lead.pos, '[') {
            lemma_array_passes_by(s, lead.pos, depth, options, name, at);
            lemma_names_concat(
                lead.tokens,
                spec_read_array(s, lead.pos, depth, options).tokens,
                name,
                at,
            );
        } else if lead.pos >= s.len() {
            lemma_names_concat(lead.tokens, Seq::empty(), name, at);
        } else {
            let primitive = spec_read_primitive_element(s, lead.pos, options.v2());
            lemma_primitive_kind(s, lead.pos, options.v2());
            match primitive.result {
                Err(_) => {
                    lemma_names_concat(lead.tokens, Seq::empty(), name, at);
                },
                Ok(token) => {
                    lemma_braceless_object_or_end_of_primitive_passes_by(
                        s,
                        primitive.pos,
                        depth,
                        options,
                        token,
                        name,
                        at,
                    );
                    lemma_names_concat(
                        lead.tokens,
                        spec_read_braceless_object_or_end_of_primitive(
                            s,
                            primitive.pos,
                            depth,
                            options,
                            token,
                        ).tokens,
                        name,
                        at,
                    );
                },
            }
        }
    }
}

/// The stream of an object inside an object or array names no property at
/// depth one, and leaves the depth as it is.
pub proof fn lemma_object_passes_by(
    s: Seq<char>,
    pos: int,
    depth: int,
    options: JsonhReaderOptions,
    name: Seq<char>,
    at: int,
)
    requires
        0 <= pos <= s.len(),
        at >= 1,
    ensures
        passes_by(spec_read_object(s, pos, depth, options), name, at, 0),
    decreases s.len() - pos, 6nat,
{
    lemma_names_single(start_object(), name, at);
    if !is_char_at(s, pos, '{') {
        lemma_braceless_object_passes_by(s, pos, depth, options, None, name, at);
    } else if may_enter(depth, options) {
        lemma_object_properties_passes_by(s, pos + 1, depth + 1, options, name, at + 1);
        lemma_names_concat(
            seq![start_object()],
            spec_read_object_properties(s, pos + 1, depth + 1, options).tokens,
            name,
            at,
        );
    }
}

/// The stream of the properties of an object in braces that lies inside an
/// object or array names no property at depth one, and leaves the object.
pub proof fn lemma_object_properties_passes_by(
    s: Seq<char>,
    pos: int,
    depth: int,
    options: JsonhReaderOptions,
    name: Seq<char>,
    at: int,
)
    requires
        0 <= pos <= s.len(),
        at >= 2,
    ensures
        passes_by(spec_read_object_properties(s, pos, depth, options), name, at, -1),
    decreases s.len() - pos, 4nat,
{
    let lead = spec_read_comments_and_whitespace(s, pos, depth, options.v2());
    lemma_read_comments_and_whitespace(s, pos, depth, options.v2());
    lemma_comments_unnamed(s, pos, depth, options.v2());
    if lead.error is None {
        if lead.pos >= s.len() || is_char_at(s, lead.pos, '}') {
            lemma_names_single(end_object(), name, at);
            lemma_names_concat(lead.tokens, seq![end_object()], name, at);
            lemma_names_concat(lead.tokens, Seq::empty(), name, at);
        } else {
            let property = spec_read_property(s, lead.pos, depth, options, None);
            lemma_read_property(s, lead.pos, depth, options, None);
            lemma_property_passes_by(s, lead.pos, depth, options, None, name, at);
            lemma_names_concat(lead.tokens, property.tokens, name, at);
            if property.error is None {
                let rest = spec_read_object_properties(s, property.pos, property.depth, options);
                lemma_object_properties_passes_by(
                    s,
                    property.pos,
                    property.depth,
                    options,
                    name,
                    at,
                );
                lemma_names_concat(lead.tokens + property.tokens, rest.tokens, name, at);
            }
        }
    }
}

/// The stream of a braceless object inside an object or array names no
/// property at depth one, and leaves the depth as it is.
pub proof fn lemma_braceless_object_passes_by(
    s: Seq<char>,
    pos: int,
    depth: int,
    options: JsonhReaderOptions,
    initial: Option<Seq<JsonhTokenView>>,
    name: Seq<char>,
    at: int,
)
    requires
        0 <= pos <= s.len(),
        at >= 1,
        initial matches Some(tokens) ==> is_flat(tokens),
    ensures
        passes_by(spec_read_braceless_object(s, pos, depth, options, initial), name, at, 0),
    decreases
            s.len() - pos,
            (if initial is Some {
                10nat
            } else {
                5nat
            }),
{
    lemma_names_single(start_object(), name, at);
    if may_enter(depth, options) {
        match initial {
            Some(tokens) => {
                let first = spec_read_property(s, pos, depth + 1, options, Some(tokens));
                lemma_read_property(s, pos, depth + 1, options, Some(tokens));
                lemma_property_passes_by(s, pos, depth + 1, options, Some(tokens), name, at + 1);
                lemma_names_concat(seq![start_object()], first.tokens, name, at);
                if first.error is None {
                    let rest = spec_read_braceless_properties(
                        s,
                        first.pos,
                        first.depth,
                        options,
                    );
                    lemma_braceless_properties_passes_by(
                        s,
                        first.pos,
                        first.depth,
                        options,
                        name,
                        at + 1,
                    );
                    lemma_names_concat(
                        seq![start_object()] + first.tokens,
                        rest.tokens,
                        name,
                        at,
                    );
                }
            },
            None => {
                lemma_braceless_properties_passes_by(s, pos, depth + 1, options, name, at + 1);
                lemma_names_concat(
                    seq![start_object()],
                    spec_read_braceless_properties(s, pos, depth + 1, options).tokens,
                    name,
                    at,
                );
            },
        }
    }
}

/// The stream of the properties of a braceless object that lies inside an
/// object or array names no property at depth one, and leaves the object.
pub proof fn lemma_braceless_properties_passes_by(
    s: Seq<char>,
    pos: int,
    depth: int,
    options: JsonhReaderOptions,
    name: Seq<char>,
    at: int,
)
    requires
        0 <= pos <= s.len(),
        at >= 2,
    ensures
        passes_by(spec_read_braceless_properties(s, pos, depth, options), name, at, -1),
    decreases s.len() - pos, 4nat,
{
    let lead = spec_read_comments_and_whitespace(s, pos, depth, options.v2());
    lemma_read_comments_and_whitespace(s, pos, depth, options.v2());
    lemma_comments_unnamed(s, pos, depth, options.v2());
    if lead.error is None {
        if lead.pos >= s.len() {
            lemma_names_single(end_object(), name, at);
            lemma_names_concat(lead.tokens, seq![end_object()], name, at);
        } else {
            let property = spec_read_property(s, lead.pos, depth, options, None);
            lemma_read_property(s, lead.pos, depth, options, None);
            lemma_property_passes_by(s, lead.pos, depth, options, None, name, at);
            lemma_names_concat(lead.tokens, property.tokens, name, at);
            if property.error is None {
                let rest = spec_read_braceless_properties(
                    s,
                    property.pos,
                    property.depth,
                    options,
                );
                lemma_braceless_properties_passes_by(
                    s,
                    property.pos,
                    property.depth,
                    options,
                    name,
                    at,
                );
                lemma_names_concat(lead.tokens + property.tokens, rest.tokens, name, at);
            }
        }
    }
}

/// The stream of what follows a primitive element inside an object or array
/// names no property at depth one, and leaves the depth as it is.
pub proof fn lemma_braceless_object_or_end_of_primitive_passes_by(
    s: Seq<char>,
    pos: int,
    depth: int,
    options: JsonhReaderOptions,
    primitive: JsonhTokenView,
    name: Seq<char>,
    at: int,
)
    requires
        0 <= pos <= s.len(),
        at >= 1,
        primitive.json_type.is_primitive(),
    ensures
        passes_by(
            spec_read_braceless_object_or_end_of_primitive(s, pos, depth, options, primitive),
            name,
            at,
            0,
        ),
    decreases s.len() - pos, 11nat,
{
    let lead = spec_read_comments_and_whitespace(s, pos, depth, options.v2());
    lemma_read_comments_and_whitespace(s, pos, depth, options.v2());
    lemma_comments_unnamed(s, pos, depth, options.v2());
    if lead.error is None {
        if is_char_at(s, lead.pos, ':') {
            let initial = lead.tokens.push(property_name(primitive.value));
            assert(is_flat(initial));
            lemma_braceless_object_passes_by(
                s,
                lead.pos + 1,
                depth,
                options,
                Some(initial),
                name,
                at,
            );
        } else {
            lemma_names_single(primitive, name, at);
            lemma_names_concat(seq![primitive], lead.tokens, name, at);
        }
    } else {
        lemma_names_flat(Seq::empty(), name, at);
    }
}

/// The stream of a property of an object that lies inside an object or
/// array, or of a property without the tokens of its name, names no property
/// at depth one, and leaves the depth as it is.
pub proof fn lemma_property_passes_by(
    s: Seq<char>,
    pos: int,
    depth: int,
    options: JsonhReaderOptions,
    initial: Option<Seq<JsonhTokenView>>,
    name: Seq<char>,
    at: int,
)
    requires
        0 <= pos <= s.len(),
        initial matches Some(tokens) ==> is_flat(tokens),
        at >= 2 || (at == 1 && initial is Some && has_no_name(initial->Some_0)),
    ensures
        passes_by(spec_read_property(s, pos, depth, options, initial), name, at, 0),
    decreases
            s.len() - pos,
            (if initial is Some {
                9nat
            } else {
                3nat
            }),
{
    let head = match initial {
        Some(tokens) => TokenStream { tokens, error: None, pos, depth },
        None => spec_read_property_name(s, pos, depth, options.v2()),
    };
    lemma_read_property_name(s, pos, depth, options.v2());
    lemma_property_name_tokens(s, pos, depth, options.v2(), name, at);
    lemma_names_flat(head.tokens, name, at);
    if head.error is None {
        let lead = spec_read_comments_and_whitespace(s, head.pos, depth, options.v2());
        lemma_read_comments_and_whitespace(s, head.pos, depth, options.v2());
        lemma_comments_unnamed(s, head.pos, depth, options.v2());
        lemma_names_concat(head.tokens, lead.tokens, name, at);
        if lead.error is None {
            lemma_item_passes_by(s, lead.pos, depth, options, name, at);
            lemma_names_concat(
                head.tokens + lead.tokens,
                spec_read_item(s, lead.pos, depth, options).tokens,
                name,
                at,
            );
        }
    }
}

/// The stream of an array inside an object or array, or of an array that is
/// the element, names no property at depth one, and leaves the depth as it is.
pub proof fn lemma_array_passes_by(
    s: Seq<char>,
    pos: int,
    depth: int,
    options: JsonhReaderOptions,
    name: Seq<char>,
    at: int,
)
    requires
        0 <= pos <= s.len(),
        at >= 0,
    ensures
        passes_by(spec_read_array(s, pos, depth, options), name, at, 0),
    decreases s.len() - pos, 6nat,
{
    lemma_names_single(start_array(), name, at);
    lemma_names_flat(Seq::empty(), name, at);
    if is_char_at(s, pos, '[') {
        if may_enter(depth, options) {
            lemma_array_items_passes_by(s, pos + 1, depth + 1, options, name, at + 1);
            lemma_names_concat(
                seq![start_array()],
                spec_read_array_items(s, pos + 1, depth + 1, options).tokens,
                name,
                at,
            );
        }
    }
}

/// The stream of the items of an array names no property at depth one, and
/// leaves the array.
pub proof fn lemma_array_items_passes_by(
    s: Seq<char>,
    pos: int,
    depth: int,
    options: JsonhReaderOptions,
    name: Seq<char>,
    at: int,
)
    requires
        0 <= pos <= s.len(),
        at >= 1,
    ensures
        passes_by(spec_read_array_items(s, pos, depth, options), name, at, -1),
    decreases s.len() - pos, 9nat,
{
    let lead = spec_read_comments_and_whitespace(s, pos, depth, options.v2());
    lemma_read_comments_and_whitespace(s, pos, depth, options.v2());
    lemma_comments_unnamed(s, pos, depth, options.v2());
    if lead.error is None {
        if lead.pos >= s.len() || is_char_at(s, lead.pos, ']') {
            lemma_names_single(end_array(), name, at);
            lemma_names_concat(lead.tokens, seq![end_array()], name, at);
            lemma_names_concat(lead.tokens, Seq::empty(), name, at);
        } else {
            let item = spec_read_item(s, lead.pos, depth, options);
            lemma_read_item(s, lead.pos, depth, options);
            lemma_item_passes_by(s, lead.pos, depth, options, name, at);
            lemma_names_concat(lead.tokens, item.tokens, name, at);
            if item.error is None {
                let rest = spec_read_array_items(s, item.pos, item.depth, options);
                lemma_array_items_passes_by(s, item.pos, item.depth, options, name, at);
                lemma_names_concat(lead.tokens + item.tokens, rest.tokens, name, at);
            }
        }
    }
}

/// The stream of an item inside an object or array names no property at
/// depth one, and leaves the depth as it is.
pub proof fn lemma_item_passes_by(
    s: Seq<char>,
    pos: int,
    depth: int,
    options: JsonhReaderOptions,
    name: Seq<char>,
    at: int,
)
    requires
        0 <= pos <= s.len(),
        at >= 1,
    ensures
        passes_by(spec_read_item(s, pos, depth, options), name, at, 0),
    decreases s.len() - pos, 8nat,
{
    let element = spec_read_element(s, pos, depth, options);
    lemma_read_element(s, pos, depth, options);
    lemma_element_passes_by(s, pos, depth, options, name, at);
    if element.error is None {
        let trail = spec_read_comments_and_whitespace(
            s,
            element.pos,
            element.depth,
            options.v2(),
        );
        lemma_read_comments_and_whitespace(s, element.pos, element.depth, options.v2());
        lemma_comments_unnamed(s, element.pos, element.depth, options.v2());
        lemma_names_concat(element.tokens, trail.tokens, name, at);
    }
}

/// A property that is read with its name is its name and then the property
/// without the tokens of its name.
pub proof fn lemma_property_split(
    s: Seq<char>,
    pos: int,
    depth: int,
    options: JsonhReaderOptions,
    initial: Seq<JsonhTokenView>,
)
    requires
        0 <= pos <= s.len(),
    ensures
        spec_read_property(s, pos, depth, options, Some(initial)) == spec_read_property(
            s,
            pos,
            depth,
            options,
            Some(Seq::empty()),
        ).after(initial),
        ({
            let head = spec_read_property_name(s, pos, depth, options.v2());
            head.error is None ==> spec_read_property(s, pos, depth, options, None)
                == spec_read_property(s, head.pos, depth, options, Some(Seq::empty())).after(
                head.tokens,
            )
        }),
{
    let empty = Seq::<JsonhTokenView>::empty();
    lemma_property_after(s, pos, depth, options, initial);
    let head = spec_read_property_name(s, pos, depth, options.v2());
    lemma_read_property_name(s, pos, depth, options.v2());
    if head.error is None {
        lemma_property_after(s, head.pos, depth, options, head.tokens);
        let with_name = spec_read_property(s, pos, depth, options, None);
        let after_name = spec_read_property(s, head.pos, depth, options, Some(head.tokens));
        let lead = spec_read_comments_and_whitespace(s, head.pos, depth, options.v2());
        if lead.error is Some {
            assert(with_name == after_name);
        } else {
            assert(with_name == after_name);
        }
    }
}

/// A property after the tokens of its name is the property without these
/// tokens, after them.
pub proof fn lemma_property_after(
    s: Seq<char>,
    pos: int,
    depth: int,
    options: JsonhReaderOptions,
    initial: Seq<JsonhTokenView>,
)
    requires
        0 <= pos <= s.len(),
    ensures
        spec_read_property(s, pos, depth, options, Some(initial)) == spec_read_property(
            s,
            pos,
            depth,
            options,
            Some(Seq::empty()),
        ).after(initial),
{
    let empty = Seq::<JsonhTokenView>::empty();
    let lead = spec_read_comments_and_whitespace(s, pos, depth, options.v2());
    let item = spec_read_item(s, lead.pos, depth, options);
    let named = spec_read_property(s, pos, depth, options, Some(initial));
    let bare = spec_read_property(s, pos, depth, options, Some(empty));
    lemma_read_comments_and_whitespace(s, pos, depth, options.v2());
    if lead.error is Some {
        assert(named.tokens == initial + lead.tokens);
        assert(bare.tokens == empty + lead.tokens);
        assert(initial + (empty + lead.tokens) =~= initial + lead.tokens);
        assert(named.tokens == bare.after(initial).tokens);
    } else {
        assert(named.tokens == (initial + lead.tokens) + item.tokens);
        assert(bare.tokens == (empty + lead.tokens) + item.tokens);
        assert(initial + ((empty + lead.tokens) + item.tokens) =~= (initial + lead.tokens)
            + item.tokens);
        assert(named.tokens == bare.after(initial).tokens);
    }
}

/// The stream of the properties of the object that the search is in: in
/// braces, or braceless.
pub open spec fn spec_read_properties(
    s: Seq<char>,
    pos: int,
    depth: int,
    options: JsonhReaderOptions,
    braces: bool,
) -> TokenStream {
    if braces {
        spec_read_object_properties(s, pos, depth, options)
    } else {
        spec_read_braceless_properties(s, pos, depth, options)
    }
}

/// The search among the properties of an object finds the property `name`
/// exactly where the stream of the properties holds the name at depth one.
pub proof fn lemma_find_property(
    s: Seq<char>,
    pos: int,
    depth: int,
    options: JsonhReaderOptions,
    name: Seq<char>,
    braces: bool,
)
    requires
        0 <= pos <= s.len(),
    ensures
        spec_find_property(s, pos, depth, options, name, braces).found == names_property(
            spec_read_properties(s, pos, depth, options, braces).tokens,
            name,
            1,
        ),
    decreases s.len() - pos,
{
    let lead = spec_read_comments_and_whitespace(s, pos, depth, options.v2());
    lemma_read_comments_and_whitespace(s, pos, depth, options.v2());
    lemma_comments_unnamed(s, pos, depth, options.v2());
    if lead.error is None {
        if lead.pos >= s.len() || (braces && is_char_at(s, lead.pos, '}')) {
            lemma_names_single(end_object(), name, 1);
            lemma_names_concat(lead.tokens, seq![end_object()], name, 1);
            lemma_names_concat(lead.tokens, Seq::empty(), name, 1);
        } else {
            let head = spec_read_property_name(s, lead.pos, depth, options.v2());
            let property = spec_read_property(s, lead.pos, depth, options, None);
            lemma_read_property_name(s, lead.pos, depth, options.v2());
            lemma_property_name_tokens(s, lead.pos, depth, options.v2(), name, 1);
            lemma_read_property(s, lead.pos, depth, options, None);
            lemma_names_concat(lead.tokens, property.tokens, name, 1);
            if head.error is None {
                lemma_property_split(s, lead.pos, depth, options, Seq::empty());
                let value = spec_read_property(
                    s,
                    head.pos,
                    depth,
                    options,
                    Some(Seq::empty()),
                );
                lemma_read_property(s, head.pos, depth, options, Some(Seq::empty()));
                lemma_names_concat(head.tokens, value.tokens, name, 1);
                if head.tokens.last().value == name {
                    if property.error is None {
                        let rest = spec_read_properties(
                            s,
                            property.pos,
                            property.depth,
                            options,
                            braces,
                        );
                        lemma_names_concat(lead.tokens + property.tokens, rest.tokens, name, 1);
                    }
                } else {
                    lemma_property_passes_by(
                        s,
                        head.pos,
                        depth,
                        options,
                        Some(Seq::empty()),
                        name,
                        1,
                    );
                    if value.error is None {
                        let rest = spec_read_properties(
                            s,
                            value.pos,
                            value.depth,
                            options,
                            braces,
                        );
                        lemma_find_property(s, value.pos, value.depth, options, name, braces);
                        lemma_names_concat(lead.tokens + property.tokens, rest.tokens, name, 1);
                    }
                }
            }
        }
    }
}

/// The search for a property finds the property `name` exactly where the
/// stream of the element holds a token for the name `name` at depth one: as
/// the name of a property of the element itself, not of an object inside it.
pub proof fn lemma_find_property_value(
    s: Seq<char>,
    pos: int,
    depth: int,
    options: JsonhReaderOptions,
    name: Seq<char>,
)
    requires
        0 <= pos <= s.len(),
    ensures
        spec_find_property_value(s, pos, depth, options, name).found == names_property(
            spec_read_element(s, pos, depth, options).tokens,
            name,
            0,
        ),
{
    let lead = spec_read_comments_and_whitespace(s, pos, depth, options.v2());
    lemma_read_comments_and_whitespace(s, pos, depth, options.v2());
    lemma_comments_unnamed(s, pos, depth, options.v2());
    lemma_names_concat(lead.tokens, Seq::empty(), name, 0);
    lemma_names_flat(Seq::empty(), name, 0);
    if lead.error is None && lead.pos < s.len() {
        lemma_read_primitive_element(s, lead.pos, options.v2());
        if is_char_at(s, lead.pos, '{') {
            let object = spec_read_object(s, lead.pos, depth, options);
            lemma_names_single(start_object(), name, 0);
            lemma_names_concat(lead.tokens, object.tokens, name, 0);
            if may_enter(depth, options) {
                lemma_find_property(s, lead.pos + 1, depth + 1, options, name, true);
                lemma_names_concat(
                    seq![start_object()],
                    spec_read_object_properties(s, lead.pos + 1, depth + 1, options).tokens,
                    name,
                    0,
                );
            }
        } else if is_char_at(s, lead.pos, '[') {
            lemma_array_passes_by(s, lead.pos, depth, options, name, 0);
            lemma_names_concat(
                lead.tokens,
                spec_read_array(s, lead.pos, depth, options).tokens,
                name,
                0,
            );
        } else {
            let primitive = spec_read_primitive_element(s, lead.pos, options.v2());
            lemma_primitive_kind(s, lead.pos, options.v2());
            if primitive.result is Ok {
                let token = primitive.result->Ok_0;
                let after = spec_read_braceless_object_or_end_of_primitive(
                    s,
                    primitive.pos,
                    depth,
                    options,
                    token,
                );
                lemma_names_concat(lead.tokens, after.tokens, name, 0);
                let trail = spec_read_comments_and_whitespace(
                    s,
                    primitive.pos,
                    depth,
                    options.v2(),
                );
                lemma_read_comments_and_whitespace(s, primitive.pos, depth, options.v2());
                lemma_comments_unnamed(s, primitive.pos, depth, options.v2());
                lemma_names_single(token, name, 0);
                lemma_names_concat(seq![token], trail.tokens, name, 0);
                if trail.error is None && is_char_at(s, trail.pos, ':') {
                    let initial = trail.tokens.push(property_name(token.value));
                    assert(initial =~= trail.tokens + seq![property_name(token.value)]);
                    lemma_names_single(start_object(), name, 0);
                    if may_enter(depth, options) {
                        let first = spec_read_property(
                            s,
                            trail.pos + 1,
                            depth + 1,
                            options,
                            Some(initial),
                        );
                        let value = spec_read_property(
                            s,
                            trail.pos + 1,
                            depth + 1,
                            options,
                            Some(Seq::empty()),
                        );
                        lemma_property_split(s, trail.pos + 1, depth + 1, options, initial);
                        lemma_read_property(s, trail.pos + 1, depth + 1, options, Some(initial));
                        lemma_names_single(property_name(token.value), name, 1);
                        lemma_names_concat(
                            trail.tokens,
                            seq![property_name(token.value)],
                            name,
                            1,
                        );
                        lemma_names_flat(initial, name, 1);
                        lemma_names_concat(initial, value.tokens, name, 1);
                        lemma_names_concat(seq![start_object()], first.tokens, name, 0);
                        if token.value != name {
                            lemma_property_passes_by(
                                s,
                                trail.pos + 1,
                                depth + 1,
                                options,
                                Some(Seq::empty()),
                                name,
                                1,
                            );
                        }
                        if first.error is None {
                            let rest = spec_read_braceless_properties(
                                s,
                                first.pos,
                                first.depth,
                                options,
                            );
                            lemma_find_property(s, first.pos, first.depth, options, name, false);
                            lemma_names_concat(
                                seq![start_object()] + first.tokens,
                                rest.tokens,
                                name,
                                0,
                            );
                            lemma_names_concat(seq![start_object()], first.tokens, name, 0);
                        }
                    }
                }
            }
        }
    }
}

} // verus!
