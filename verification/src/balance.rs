//! The law of balance: in the stream of an element, start and end tokens pair
//! up like brackets.
use vstd::prelude::*;
use crate::comments::{lemma_read_comments_and_whitespace, spec_read_comments_and_whitespace};
use crate::elements::{
    lemma_read_element,
    lemma_read_item,
    lemma_read_property,
    lemma_read_property_name,
    may_enter,
    property_name,
    spec_read_array,
    spec_read_array_items,
    spec_read_braceless_object,
    spec_read_braceless_object_or_end_of_primitive,
    spec_read_braceless_properties,
    spec_read_element,
    spec_read_item,
    spec_read_object,
    spec_read_object_properties,
    spec_read_property,
    spec_read_property_name,
    start_array,
    start_object,
};
use crate::json_token_type::JsonTokenType;
use crate::jsonh_reader::is_char_at;
use crate::jsonh_reader_options::JsonhReaderOptions;
use crate::jsonh_token::{JsonhTokenView, TokenStream};
use crate::numbers::{
    lemma_read_primitive_element,
    spec_read_number_or_quoteless_string,
    spec_read_primitive_element,
};
use crate::strings::{spec_read_quoteless_string, spec_read_string};

verus! {

/// The objects and arrays that are open after the tokens `tokens`, the
/// outermost first, where `open` were open before them: each as the kind of
/// the token that started it. `None` where a token ends what is not open, or
/// an object as an array, or an array as an object.
pub open spec fn nesting_after(open: Seq<JsonTokenType>, tokens: Seq<JsonhTokenView>) -> Option<
    Seq<JsonTokenType>,
>
    decreases tokens.len(),
{
    if tokens.len() == 0 {
        Some(open)
    } else {
        let kind = tokens[0].json_type;
        let rest = tokens.subrange(1, tokens.len() as int);
        if kind.is_start() {
            nesting_after(open.push(kind), rest)
        } else if kind == JsonTokenType::EndObject {
            if open.len() > 0 && open.last() == JsonTokenType::StartObject {
                nesting_after(open.drop_last(), rest)
            } else {
                None
            }
        } else if kind == JsonTokenType::EndArray {
            if open.len() > 0 && open.last() == JsonTokenType::StartArray {
                nesting_after(open.drop_last(), rest)
            } else {
                None
            }
        } else {
            nesting_after(open, rest)
        }
    }
}

/// Whether the start and end tokens among `tokens` are balanced: each end
/// token ends the object or array that was started last and is still open,
/// and nothing is left open.
pub open spec fn is_balanced(tokens: Seq<JsonhTokenView>) -> bool {
    nesting_after(Seq::empty(), tokens) == Some(Seq::<JsonTokenType>::empty())
}

/// Whether `tokens` can start a balanced sequence of tokens: each end token
/// ends the object or array that was started last and is still open.
pub open spec fn is_balanced_so_far(tokens: Seq<JsonhTokenView>) -> bool {
    nesting_after(Seq::empty(), tokens) is Some
}

/// Whether none of `tokens` starts or ends an object or array.
pub open spec fn is_flat(tokens: Seq<JsonhTokenView>) -> bool {
    forall|i: int|
        0 <= i < tokens.len() ==> !(#[trigger] tokens[i]).json_type.is_start()
            && !tokens[i].json_type.is_end()
}

/// Whether the stream `out` leaves open what was open: it never ends what is
/// not open, and where it ended well, exactly `open` is open after it.
pub open spec fn keeps_open(out: TokenStream, open: Seq<JsonTokenType>) -> bool {
    &&& nesting_after(open, out.tokens) is Some
    &&& out.error is None ==> nesting_after(open, out.tokens) == Some(open)
}

/// Whether the stream `out` closes the innermost of what was open: it never
/// ends what is not open, and where it ended well, the innermost of `open`
/// is closed after it and the rest is open.
pub open spec fn closes_innermost(out: TokenStream, open: Seq<JsonTokenType>) -> bool {
    &&& nesting_after(open, out.tokens) is Some
    &&& out.error is None ==> nesting_after(open, out.tokens) == Some(open.drop_last())
}

/// What is open after two sequences of tokens in a row is what is open after
/// the second, starting from what is open after the first.
pub proof fn lemma_nesting_concat(
    open: Seq<JsonTokenType>,
    first: Seq<JsonhTokenView>,
    second: Seq<JsonhTokenView>,
)
    ensures
        nesting_after(open, first + second) == match nesting_after(open, first) {
            Some(between) => nesting_after(between, second),
            None => None,
        },
    decreases first.len(),
{
    if first.len() == 0 {
        assert(first + second =~= second);
    } else {
        let all = first + second;
        let kind = first[0].json_type;
        assert(all[0] == first[0]);
        assert(all.subrange(1, all.len() as int) =~= first.subrange(1, first.len() as int)
            + second);
        let rest = first.subrange(1, first.len() as int);
        if kind.is_start() {
            lemma_nesting_concat(open.push(kind), rest, second);
        } else if kind == JsonTokenType::EndObject {
            if open.len() > 0 && open.last() == JsonTokenType::StartObject {
                lemma_nesting_concat(open.drop_last(), rest, second);
            }
        } else if kind == JsonTokenType::EndArray {
            if open.len() > 0 && open.last() == JsonTokenType::StartArray {
                lemma_nesting_concat(open.drop_last(), rest, second);
            }
        } else {
            lemma_nesting_concat(open, rest, second);
        }
    }
}

/// Tokens that neither start nor end anything leave open what was open.
pub proof fn lemma_flat_nesting(open: Seq<JsonTokenType>, tokens: Seq<JsonhTokenView>)
    requires
        is_flat(tokens),
    ensures
        nesting_after(open, tokens) == Some(open),
    decreases tokens.len(),
{
    if tokens.len() > 0 {
        let rest = tokens.subrange(1, tokens.len() as int);
        assert(tokens[0].json_type != JsonTokenType::EndObject);
        assert forall|i: int| 0 <= i < rest.len() implies !(#[trigger] rest[i]).json_type.is_start()
            && !rest[i].json_type.is_end() by {
            assert(rest[i] == tokens[i + 1]);
        }
        lemma_flat_nesting(open, rest);
    }
}

/// The tokens of comments and whitespace are flat.
pub proof fn lemma_comments_flat(s: Seq<char>, pos: int, depth: int, v2: bool)
    requires
        0 <= pos <= s.len(),
    ensures
        is_flat(spec_read_comments_and_whitespace(s, pos, depth, v2).tokens),
{
    lemma_read_comments_and_whitespace(s, pos, depth, v2);
}

/// The tokens of a property name are flat.
pub proof fn lemma_property_name_flat(s: Seq<char>, pos: int, depth: int, v2: bool)
    requires
        0 <= pos <= s.len(),
    ensures
        is_flat(spec_read_property_name(s, pos, depth, v2).tokens),
{
    let name = spec_read_string(s, pos, v2);
    crate::strings::lemma_read_string(s, pos, v2);
    if name.result is Ok {
        lemma_comments_flat(s, name.pos, depth, v2);
    }
}

/// The token of a primitive element is a string, a number or a named literal.
pub proof fn lemma_primitive_kind(s: Seq<char>, pos: int, v2: bool)
    ensures
        spec_read_primitive_element(s, pos, v2).result matches Ok(token)
            ==> token.json_type.is_primitive(),
{
    reveal(spec_read_primitive_element);
    reveal(spec_read_number_or_quoteless_string);
    reveal(spec_read_quoteless_string);
    reveal(spec_read_string);
}

/// Flat tokens in a row are flat.
pub proof fn lemma_flat_concat(first: Seq<JsonhTokenView>, second: Seq<JsonhTokenView>)
    requires
        is_flat(first),
        is_flat(second),
    ensures
        is_flat(first + second),
{
    assert forall|i: int| 0 <= i < (first + second).len() implies !(#[trigger] (first
        + second)[i]).json_type.is_start() && !(first + second)[i].json_type.is_end() by {
        if i < first.len() {
            assert((first + second)[i] == first[i]);
        } else {
            assert((first + second)[i] == second[i - first.len()]);
        }
    }
}

/// The stream of an element leaves open what was open.
pub proof fn lemma_element_nesting(
    s: Seq<char>,
    pos: int,
    depth: int,
    options: JsonhReaderOptions,
    open: Seq<JsonTokenType>,
)
    requires
        0 <= pos <= s.len(),
    ensures
        keeps_open(spec_read_element(s, pos, depth, options), open),
    decreases s.len() - pos, 7nat,
{
    let lead = spec_read_comments_and_whitespace(s, pos, depth, options.v2());
    lemma_read_comments_and_whitespace(s, pos, depth, options.v2());
    lemma_flat_nesting(open, lead.tokens);
    if lead.error is None {
        lemma_read_primitive_element(s, lead.pos, options.v2());
        if is_char_at(s, lead.pos, '{') {
            lemma_object_nesting(s, lead.pos, depth, options, open);
            lemma_nesting_concat(
                open,
                lead.tokens,
                spec_read_object(s, lead.pos, depth, options).tokens,
            );
        } else if is_char_at(s, lead.pos, '[') {
            lemma_array_nesting(s, lead.pos, depth, options, open);
            lemma_nesting_concat(
                open,
                lead.tokens,
                spec_read_array(s, lead.pos, depth, options).tokens,
            );
        } else if lead.pos >= s.len() {
            lemma_nesting_concat(open, lead.tokens, Seq::empty());
        } else {
            let primitive = spec_read_primitive_element(s, lead.pos, options.v2());
            lemma_primitive_kind(s, lead.pos, options.v2());
            match primitive.result {
                Err(_) => {
                    lemma_nesting_concat(open, lead.tokens, Seq::empty());
                },
                Ok(token) => {
                    lemma_braceless_object_or_end_of_primitive_nesting(
                        s,
                        primitive.pos,
                        depth,
                        options,
                        token,
                        open,
                    );
                    lemma_nesting_concat(
                        open,
                        lead.tokens,
                        spec_read_braceless_object_or_end_of_primitive(
                            s,
                            primitive.pos,
                            depth,
                            options,
                            token,
                        ).tokens,
                    );
                },
            }
        }
    }
}

/// The stream of an object leaves open what was open.
pub proof fn lemma_object_nesting(
    s: Seq<char>,
    pos: int,
    depth: int,
    options: JsonhReaderOptions,
    open: Seq<JsonTokenType>,
)
    requires
        0 <= pos <= s.len(),
    ensures
        keeps_open(spec_read_object(s, pos, depth, options), open),
    decreases s.len() - pos, 6nat,
{
    if !is_char_at(s, pos, '{') {
        lemma_braceless_object_nesting(s, pos, depth, options, None, open);
    } else if may_enter(depth, options) {
        let inside = open.push(JsonTokenType::StartObject);
        lemma_object_properties_nesting(s, pos + 1, depth + 1, options, inside);
        lemma_nesting_concat(
            open,
            seq![start_object()],
            spec_read_object_properties(s, pos + 1, depth + 1, options).tokens,
        );
        lemma_start_nesting(open, start_object());
        assert(inside.drop_last() =~= open);
    } else {
        lemma_start_nesting(open, start_object());
    }
}

/// After a start token, what it starts is open as the innermost.
pub proof fn lemma_start_nesting(open: Seq<JsonTokenType>, start: JsonhTokenView)
    requires
        start.json_type.is_start(),
    ensures
        nesting_after(open, seq![start]) == Some(open.push(start.json_type)),
{
    let tokens = seq![start];
    assert(tokens.subrange(1, tokens.len() as int) =~= Seq::<JsonhTokenView>::empty());
    reveal_with_fuel(nesting_after, 2);
}

/// After the end token of the innermost object or array, the rest is open.
pub proof fn lemma_end_nesting(open: Seq<JsonTokenType>, end: JsonhTokenView)
    requires
        open.len() > 0,
        (end.json_type == JsonTokenType::EndObject && open.last() == JsonTokenType::StartObject)
            || (end.json_type == JsonTokenType::EndArray && open.last()
            == JsonTokenType::StartArray),
    ensures
        nesting_after(open, seq![end]) == Some(open.drop_last()),
{
    let tokens = seq![end];
    assert(tokens.subrange(1, tokens.len() as int) =~= Seq::<JsonhTokenView>::empty());
    reveal_with_fuel(nesting_after, 2);
}

/// The stream of the properties of an object in braces closes the object.
pub proof fn lemma_object_properties_nesting(
    s: Seq<char>,
    pos: int,
    depth: int,
    options: JsonhReaderOptions,
    open: Seq<JsonTokenType>,
)
    requires
        0 <= pos <= s.len(),
        open.len() > 0,
        open.last() == JsonTokenType::StartObject,
    ensures
        closes_innermost(spec_read_object_properties(s, pos, depth, options), open),
    decreases s.len() - pos, 4nat,
{
    let lead = spec_read_comments_and_whitespace(s, pos, depth, options.v2());
    lemma_read_comments_and_whitespace(s, pos, depth, options.v2());
    lemma_flat_nesting(open, lead.tokens);
    if lead.error is None {
        if lead.pos >= s.len() || is_char_at(s, lead.pos, '}') {
            lemma_end_nesting(open, crate::elements::end_object());
            lemma_nesting_concat(open, lead.tokens, seq![crate::elements::end_object()]);
            lemma_nesting_concat(open, lead.tokens, Seq::empty());
        } else {
            let property = spec_read_property(s, lead.pos, depth, options, None);
            lemma_read_property(s, lead.pos, depth, options, None);
            lemma_property_nesting(s, lead.pos, depth, options, None, open);
            lemma_nesting_concat(open, lead.tokens, property.tokens);
            if property.error is None {
                let rest = spec_read_object_properties(s, property.pos, property.depth, options);
                lemma_object_properties_nesting(s, property.pos, property.depth, options, open);
                lemma_nesting_concat(open, lead.tokens + property.tokens, rest.tokens);
            }
        }
    }
}

/// The stream of a braceless object leaves open what was open, where the
/// tokens of a name that was read before are flat.
pub proof fn lemma_braceless_object_nesting(
    s: Seq<char>,
    pos: int,
    depth: int,
    options: JsonhReaderOptions,
    initial: Option<Seq<JsonhTokenView>>,
    open: Seq<JsonTokenType>,
)
    requires
        0 <= pos <= s.len(),
        initial matches Some(tokens) ==> is_flat(tokens),
    ensures
        keeps_open(spec_read_braceless_object(s, pos, depth, options, initial), open),
    decreases
            s.len() - pos,
            (if initial is Some {
                10nat
            } else {
                5nat
            }),
{
    let inside = open.push(JsonTokenType::StartObject);
    lemma_start_nesting(open, start_object());
    assert(inside.drop_last() =~= open);
    if may_enter(depth, options) {
        match initial {
            Some(tokens) => {
                let first = spec_read_property(s, pos, depth + 1, options, Some(tokens));
                lemma_read_property(s, pos, depth + 1, options, Some(tokens));
                lemma_property_nesting(s, pos, depth + 1, options, Some(tokens), inside);
                lemma_nesting_concat(open, seq![start_object()], first.tokens);
                if first.error is None {
                    let rest = spec_read_braceless_properties(
                        s,
                        first.pos,
                        first.depth,
                        options,
                    );
                    lemma_braceless_properties_nesting(
                        s,
                        first.pos,
                        first.depth,
                        options,
                        inside,
                    );
                    lemma_nesting_concat(open, seq![start_object()] + first.tokens, rest.tokens);
                }
            },
            None => {
                lemma_braceless_properties_nesting(s, pos, depth + 1, options, inside);
                lemma_nesting_concat(
                    open,
                    seq![start_object()],
                    spec_read_braceless_properties(s, pos, depth + 1, options).tokens,
                );
            },
        }
    }
}

/// The stream of the properties of a braceless object closes the object.
pub proof fn lemma_braceless_properties_nesting(
    s: Seq<char>,
    pos: int,
    depth: int,
    options: JsonhReaderOptions,
    open: Seq<JsonTokenType>,
)
    requires
        0 <= pos <= s.len(),
        open.len() > 0,
        open.last() == JsonTokenType::StartObject,
    ensures
        closes_innermost(spec_read_braceless_properties(s, pos, depth, options), open),
    decreases s.len() - pos, 4nat,
{
    let lead = spec_read_comments_and_whitespace(s, pos, depth, options.v2());
    lemma_read_comments_and_whitespace(s, pos, depth, options.v2());
    lemma_flat_nesting(open, lead.tokens);
    if lead.error is None {
        if lead.pos >= s.len() {
            lemma_end_nesting(open, crate::elements::end_object());
            lemma_nesting_concat(open, lead.tokens, seq![crate::elements::end_object()]);
        } else {
            let property = spec_read_property(s, lead.pos, depth, options, None);
            lemma_read_property(s, lead.pos, depth, options, None);
            lemma_property_nesting(s, lead.pos, depth, options, None, open);
            lemma_nesting_concat(open, lead.tokens, property.tokens);
            if property.error is None {
                let rest = spec_read_braceless_properties(
                    s,
                    property.pos,
                    property.depth,
                    options,
                );
                lemma_braceless_properties_nesting(s, property.pos, property.depth, options, open);
                lemma_nesting_concat(open, lead.tokens + property.tokens, rest.tokens);
            }
        }
    }
}

/// The stream of what follows a primitive element leaves open what was open.
pub proof fn lemma_braceless_object_or_end_of_primitive_nesting(
    s: Seq<char>,
    pos: int,
    depth: int,
    options: JsonhReaderOptions,
    primitive: JsonhTokenView,
    open: Seq<JsonTokenType>,
)
    requires
        0 <= pos <= s.len(),
        primitive.json_type.is_primitive(),
    ensures
        keeps_open(
            spec_read_braceless_object_or_end_of_primitive(s, pos, depth, options, primitive),
            open,
        ),
    decreases s.len() - pos, 11nat,
{
    let lead = spec_read_comments_and_whitespace(s, pos, depth, options.v2());
    lemma_read_comments_and_whitespace(s, pos, depth, options.v2());
    if lead.error is None {
        if is_char_at(s, lead.pos, ':') {
            let initial = lead.tokens.push(property_name(primitive.value));
            assert(is_flat(initial));
            lemma_braceless_object_nesting(s, lead.pos + 1, depth, options, Some(initial), open);
        } else {
            lemma_flat_concat(seq![primitive], lead.tokens);
            lemma_flat_nesting(open, seq![primitive] + lead.tokens);
        }
    }
}

/// The stream of a property leaves open what was open, where the tokens of a
/// name that was read before are flat.
pub proof fn lemma_property_nesting(
    s: Seq<char>,
    pos: int,
    depth: int,
    options: JsonhReaderOptions,
    initial: Option<Seq<JsonhTokenView>>,
    open: Seq<JsonTokenType>,
)
    requires
        0 <= pos <= s.len(),
        initial matches Some(tokens) ==> is_flat(tokens),
    ensures
        keeps_open(spec_read_property(s, pos, depth, options, initial), open),
    decreases
            s.len() - pos,
            (if initial is Some {
                9nat
            } else {
                3nat
            }),
{
    let name = match initial {
        Some(tokens) => TokenStream { tokens, error: None, pos, depth },
        None => spec_read_property_name(s, pos, depth, options.v2()),
    };
    lemma_read_property_name(s, pos, depth, options.v2());
    lemma_property_name_flat(s, pos, depth, options.v2());
    lemma_flat_nesting(open, name.tokens);
    if name.error is None {
        let lead = spec_read_comments_and_whitespace(s, name.pos, depth, options.v2());
        lemma_read_comments_and_whitespace(s, name.pos, depth, options.v2());
        lemma_flat_concat(name.tokens, lead.tokens);
        lemma_flat_nesting(open, name.tokens + lead.tokens);
        if lead.error is None {
            lemma_item_nesting(s, lead.pos, depth, options, open);
            lemma_nesting_concat(
                open,
                name.tokens + lead.tokens,
                spec_read_item(s, lead.pos, depth, options).tokens,
            );
        }
    }
}

/// The stream of an array leaves open what was open.
pub proof fn lemma_array_nesting(
    s: Seq<char>,
    pos: int,
    depth: int,
    options: JsonhReaderOptions,
    open: Seq<JsonTokenType>,
)
    requires
        0 <= pos <= s.len(),
    ensures
        keeps_open(spec_read_array(s, pos, depth, options), open),
    decreases s.len() - pos, 6nat,
{
    if is_char_at(s, pos, '[') {
        let inside = open.push(JsonTokenType::StartArray);
        lemma_start_nesting(open, start_array());
        assert(inside.drop_last() =~= open);
        if may_enter(depth, options) {
            lemma_array_items_nesting(s, pos + 1, depth + 1, options, inside);
            lemma_nesting_concat(
                open,
                seq![start_array()],
                spec_read_array_items(s, pos + 1, depth + 1, options).tokens,
            );
        }
    }
}

/// The stream of the items of an array closes the array.
pub proof fn lemma_array_items_nesting(
    s: Seq<char>,
    pos: int,
    depth: int,
    options: JsonhReaderOptions,
    open: Seq<JsonTokenType>,
)
    requires
        0 <= pos <= s.len(),
        open.len() > 0,
        open.last() == JsonTokenType::StartArray,
    ensures
        closes_innermost(spec_read_array_items(s, pos, depth, options), open),
    decreases s.len() - pos, 9nat,
{
    let lead = spec_read_comments_and_whitespace(s, pos, depth, options.v2());
    lemma_read_comments_and_whitespace(s, pos, depth, options.v2());
    lemma_flat_nesting(open, lead.tokens);
    if lead.error is None {
        if lead.pos >= s.len() || is_char_at(s, lead.pos, ']') {
            lemma_end_nesting(open, crate::elements::end_array());
            lemma_nesting_concat(open, lead.tokens, seq![crate::elements::end_array()]);
            lemma_nesting_concat(open, lead.tokens, Seq::empty());
        } else {
            let item = spec_read_item(s, lead.pos, depth, options);
            lemma_read_item(s, lead.pos, depth, options);
            lemma_item_nesting(s, lead.pos, depth, options, open);
            lemma_nesting_concat(open, lead.tokens, item.tokens);
            if item.error is None {
                let rest = spec_read_array_items(s, item.pos, item.depth, options);
                lemma_array_items_nesting(s, item.pos, item.depth, options, open);
                lemma_nesting_concat(open, lead.tokens + item.tokens, rest.tokens);
            }
        }
    }
}

/// The stream of an item leaves open what was open.
pub proof fn lemma_item_nesting(
    s: Seq<char>,
    pos: int,
    depth: int,
    options: JsonhReaderOptions,
    open: Seq<JsonTokenType>,
)
    requires
        0 <= pos <= s.len(),
    ensures
        keeps_open(spec_read_item(s, pos, depth, options), open),
    decreases s.len() - pos, 8nat,
{
    let element = spec_read_element(s, pos, depth, options);
    lemma_read_element(s, pos, depth, options);
    lemma_element_nesting(s, pos, depth, options, open);
    if element.error is None {
        let trail = spec_read_comments_and_whitespace(
            s,
            element.pos,
            element.depth,
            options.v2(),
        );
        lemma_read_comments_and_whitespace(s, element.pos, element.depth, options.v2());
        lemma_flat_nesting(open, trail.tokens);
        lemma_nesting_concat(open, element.tokens, trail.tokens);
    }
}

/// The start and end tokens of an element are balanced: in the stream of an
/// element that was read, each end token ends the object or array that was
/// started last and is still open, and nothing is left open. The tokens
/// before an error can start such a stream.
pub proof fn lemma_element_tokens_balanced(
    s: Seq<char>,
    pos: int,
    depth: int,
    options: JsonhReaderOptions,
)
    requires
        0 <= pos <= s.len(),
    ensures
        is_balanced_so_far(spec_read_element(s, pos, depth, options).tokens),
        spec_read_element(s, pos, depth, options).error is None ==> is_balanced(
            spec_read_element(s, pos, depth, options).tokens,
        ),
{
    lemma_element_nesting(s, pos, depth, options, Seq::empty());
}

/// After an element that was read, the nesting depth is what it was before:
/// zero for a reader that starts at depth zero.
pub proof fn lemma_element_depth(s: Seq<char>, pos: int, depth: int, options: JsonhReaderOptions)
    requires
        0 <= pos <= s.len(),
    ensures
        spec_read_element(s, pos, depth, options).error is None ==> spec_read_element(
            s,
            pos,
            depth,
            options,
        ).depth == depth,
        spec_read_element(s, 0, 0, options).error is None ==> spec_read_element(
            s,
            0,
            0,
            options,
        ).depth == 0,
{
    lemma_read_element(s, pos, depth, options);
    lemma_read_element(s, 0, 0, options);
}

} // verus!
