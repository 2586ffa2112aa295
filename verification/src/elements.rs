//! Elements as streams of tokens: objects in braces and braceless, arrays,
//! properties and items.
use vstd::prelude::*;
use crate::balance::{is_balanced, is_balanced_so_far, lemma_element_tokens_balanced};
use crate::comments::{lemma_read_comments_and_whitespace, spec_read_comments_and_whitespace};
use crate::json_token_type::JsonTokenType;
use crate::jsonh_error::JsonhError;
use crate::jsonh_reader::{
    is_char_at,
    lemma_whitespace_end,
    whitespace_end,
    JsonhReader,
};
use crate::jsonh_reader_options::JsonhReaderOptions;
use crate::jsonh_token::{
    append_tokens,
    lemma_after_after,
    push_token,
    results_view,
    stream_results,
    tokens_view,
    JsonhToken,
    JsonhTokenView,
    TokenStream,
};
use crate::numbers::{lemma_read_primitive_element, spec_read_primitive_element};
use crate::strings::{lemma_read_string, spec_read_string};

verus! {

/// The token that starts an object.
pub open spec fn start_object() -> JsonhTokenView {
    JsonhTokenView::empty(JsonTokenType::StartObject)
}

/// The token that ends an object.
pub open spec fn end_object() -> JsonhTokenView {
    JsonhTokenView::empty(JsonTokenType::EndObject)
}

/// The token that starts an array.
pub open spec fn start_array() -> JsonhTokenView {
    JsonhTokenView::empty(JsonTokenType::StartArray)
}

/// The token that ends an array.
pub open spec fn end_array() -> JsonhTokenView {
    JsonhTokenView::empty(JsonTokenType::EndArray)
}

/// The token for the property name `name`.
pub open spec fn property_name(name: Seq<char>) -> JsonhTokenView {
    JsonhTokenView { json_type: JsonTokenType::PropertyName, value: name }
}

/// Whether an object or array may be opened at the depth `depth`: the depth
/// inside it must not exceed the maximum depth.
pub open spec fn may_enter(depth: int, options: JsonhReaderOptions) -> bool {
    depth < options.max_depth
}

/// The depth after opening an object or array at the depth `depth`: one
/// more, up to the largest depth that can be counted.
pub open spec fn entered(depth: int) -> int {
    if depth < i32::MAX {
        depth + 1
    } else {
        depth
    }
}

/// The stream of a start token `start` that exceeds the maximum depth.
pub open spec fn exceeded(start: JsonhTokenView, pos: int, depth: int) -> TokenStream {
    TokenStream {
        tokens: seq![start],
        error: Some(JsonhError::ExceededMaxDepth),
        pos,
        depth: entered(depth),
    }
}

/// The position after an optional comma at `pos`.
pub open spec fn after_comma(s: Seq<char>, pos: int) -> int {
    if is_char_at(s, pos, ',') {
        pos + 1
    } else {
        pos
    }
}

/// Reading a property name from `pos`: a string, comments and whitespace, and
/// `:`. The comments come first in the stream, then the token of the name.
pub open spec fn spec_read_property_name(s: Seq<char>, pos: int, depth: int, v2: bool) -> TokenStream {
    let name = spec_read_string(s, pos, v2);
    match name.result {
        Err(e) => TokenStream::fail(e, name.pos, depth),
        Ok(token) => {
            let lead = spec_read_comments_and_whitespace(s, name.pos, depth, v2);
            if is_char_at(s, lead.pos, ':') {
                lead.followed_by(TokenStream::single(property_name(token.value), lead.pos + 1, depth))
            } else {
                lead.followed_by(TokenStream::fail(JsonhError::ExpectedColon, lead.pos, depth))
            }
        },
    }
}

/// Reading one element from `pos`: comments and whitespace, then an object
/// where `{` follows, an array where `[` follows, and else a primitive
/// element, which may turn out to start a braceless object.
pub open spec fn spec_read_element(
    s: Seq<char>,
    pos: int,
    depth: int,
    options: JsonhReaderOptions,
) -> TokenStream
    decreases s.len() - pos, 7nat,
    when 0 <= pos <= s.len()
{
    let lead = spec_read_comments_and_whitespace(s, pos, depth, options.v2());
    if lead.error is Some {
        lead
    } else {
        proof {
            lemma_read_comments_and_whitespace(s, pos, depth, options.v2());
            lemma_read_primitive_element(s, lead.pos, options.v2());
        }
        if is_char_at(s, lead.pos, '{') {
            spec_read_object(s, lead.pos, depth, options).after(lead.tokens)
        } else if is_char_at(s, lead.pos, '[') {
            spec_read_array(s, lead.pos, depth, options).after(lead.tokens)
        } else if lead.pos >= s.len() {
            lead.followed_by(TokenStream::fail(JsonhError::ExpectedToken, lead.pos, depth))
        } else {
            let primitive = spec_read_primitive_element(s, lead.pos, options.v2());
            match primitive.result {
                Err(e) => lead.followed_by(TokenStream::fail(e, primitive.pos, depth)),
                Ok(token) => spec_read_braceless_object_or_end_of_primitive(
                    s,
                    primitive.pos,
                    depth,
                    options,
                    token,
                ).after(lead.tokens),
            }
        }
    }
}

/// Reading an object from `pos`: `{`, properties, `}`. Where no `{` stands
/// at `pos`, the object is braceless.
pub open spec fn spec_read_object(
    s: Seq<char>,
    pos: int,
    depth: int,
    options: JsonhReaderOptions,
) -> TokenStream
    decreases s.len() - pos, 6nat,
    when 0 <= pos <= s.len()
{
    if !is_char_at(s, pos, '{') {
        spec_read_braceless_object(s, pos, depth, options, None)
    } else if !may_enter(depth, options) {
        exceeded(start_object(), pos + 1, depth)
    } else {
        spec_read_object_properties(s, pos + 1, depth + 1, options).after(seq![start_object()])
    }
}

/// Reading the properties of an object in braces from `pos` up to its `}`.
/// The end of the input ends the object where the options accept incomplete
/// inputs. A property that was read ends after the position at which it
/// started (`lemma_read_property`), so that the properties after it are
/// always read.
pub open spec fn spec_read_object_properties(
    s: Seq<char>,
    pos: int,
    depth: int,
    options: JsonhReaderOptions,
) -> TokenStream
    decreases s.len() - pos, 4nat,
    when 0 <= pos <= s.len()
{
    let lead = spec_read_comments_and_whitespace(s, pos, depth, options.v2());
    if lead.error is Some {
        lead
    } else {
        proof {
            lemma_read_comments_and_whitespace(s, pos, depth, options.v2());
        }
        if lead.pos >= s.len() {
            if options.incomplete_inputs {
                lead.followed_by(TokenStream::single(end_object(), lead.pos, depth - 1))
            } else {
                lead.followed_by(TokenStream::fail(JsonhError::ExpectedObjectEnd, lead.pos, depth))
            }
        } else if is_char_at(s, lead.pos, '}') {
            lead.followed_by(TokenStream::single(end_object(), lead.pos + 1, depth - 1))
        } else {
            let property = spec_read_property(s, lead.pos, depth, options, None);
            if property.error is Some || !(lead.pos < property.pos <= s.len()) {
                property.after(lead.tokens)
            } else {
                spec_read_object_properties(s, property.pos, property.depth, options).after(
                    lead.tokens + property.tokens,
                )
            }
        }
    }
}

/// Reading a braceless object from `pos`: its properties up to the end of
/// the input. `initial` holds the tokens of the first property's name where
/// the name was read before.
pub open spec fn spec_read_braceless_object(
    s: Seq<char>,
    pos: int,
    depth: int,
    options: JsonhReaderOptions,
    initial: Option<Seq<JsonhTokenView>>,
) -> TokenStream
    decreases
            s.len() - pos,
            (if initial is Some {
                10nat
            } else {
                5nat
            }),
    when 0 <= pos <= s.len()
{
    if !may_enter(depth, options) {
        exceeded(start_object(), pos, depth)
    } else {
        match initial {
            Some(tokens) => {
                let first = spec_read_property(s, pos, depth + 1, options, Some(tokens));
                if first.error is Some || !(pos <= first.pos <= s.len()) {
                    first.after(seq![start_object()])
                } else {
                    spec_read_braceless_properties(s, first.pos, first.depth, options).after(
                        seq![start_object()] + first.tokens,
                    )
                }
            },
            None => spec_read_braceless_properties(s, pos, depth + 1, options).after(
                seq![start_object()],
            ),
        }
    }
}

/// Reading the properties of a braceless object from `pos` up to the end of
/// the input, which ends the object. A property that was read ends after the
/// position at which it started (`lemma_read_property`), so that the
/// properties after it are always read.
pub open spec fn spec_read_braceless_properties(
    s: Seq<char>,
    pos: int,
    depth: int,
    options: JsonhReaderOptions,
) -> TokenStream
    decreases s.len() - pos, 4nat,
    when 0 <= pos <= s.len()
{
    let lead = spec_read_comments_and_whitespace(s, pos, depth, options.v2());
    if lead.error is Some {
        lead
    } else {
        proof {
            lemma_read_comments_and_whitespace(s, pos, depth, options.v2());
        }
        if lead.pos >= s.len() {
            lead.followed_by(TokenStream::single(end_object(), lead.pos, depth - 1))
        } else {
            let property = spec_read_property(s, lead.pos, depth, options, None);
            if property.error is Some || !(lead.pos < property.pos <= s.len()) {
                property.after(lead.tokens)
            } else {
                spec_read_braceless_properties(s, property.pos, property.depth, options).after(
                    lead.tokens + property.tokens,
                )
            }
        }
    }
}

/// Deciding after a primitive element, which ended at `pos`, what it is:
/// where `:` follows after comments and whitespace, the name of the first
/// property of a braceless object, and else an element by itself. The stream
/// of the element holds its token and then the comments; the stream of the
/// object holds the comments before the token of the name.
pub open spec fn spec_read_braceless_object_or_end_of_primitive(
    s: Seq<char>,
    pos: int,
    depth: int,
    options: JsonhReaderOptions,
    primitive: JsonhTokenView,
) -> TokenStream
    decreases s.len() - pos, 11nat,
    when 0 <= pos <= s.len()
{
    let lead = spec_read_comments_and_whitespace(s, pos, depth, options.v2());
    if lead.error is Some {
        TokenStream { tokens: Seq::empty(), ..lead }
    } else {
        proof {
            lemma_read_comments_and_whitespace(s, pos, depth, options.v2());
        }
        if is_char_at(s, lead.pos, ':') {
            spec_read_braceless_object(
                s,
                lead.pos + 1,
                depth,
                options,
                Some(lead.tokens.push(property_name(primitive.value))),
            )
        } else {
            lead.after(seq![primitive])
        }
    }
}

/// Reading a property from `pos`: its name, comments and whitespace, its
/// value, comments and whitespace, and an optional comma. `initial` holds
/// the tokens of the name where the name was read before.
pub open spec fn spec_read_property(
    s: Seq<char>,
    pos: int,
    depth: int,
    options: JsonhReaderOptions,
    initial: Option<Seq<JsonhTokenView>>,
) -> TokenStream
    decreases
            s.len() - pos,
            (if initial is Some {
                9nat
            } else {
                3nat
            }),
    when 0 <= pos <= s.len()
{
    let name = match initial {
        Some(tokens) => TokenStream { tokens, error: None, pos, depth },
        None => spec_read_property_name(s, pos, depth, options.v2()),
    };
    if name.error is Some {
        name
    } else {
        proof {
            lemma_read_property_name(s, pos, depth, options.v2());
        }
        let lead = spec_read_comments_and_whitespace(s, name.pos, depth, options.v2());
        if lead.error is Some {
            name.followed_by(lead)
        } else {
            proof {
                lemma_read_comments_and_whitespace(s, name.pos, depth, options.v2());
            }
            spec_read_item(s, lead.pos, depth, options).after(name.tokens + lead.tokens)
        }
    }
}

/// Reading an array from `pos`: `[`, items, `]`.
pub open spec fn spec_read_array(
    s: Seq<char>,
    pos: int,
    depth: int,
    options: JsonhReaderOptions,
) -> TokenStream
    decreases s.len() - pos, 6nat,
    when 0 <= pos <= s.len()
{
    if !is_char_at(s, pos, '[') {
        TokenStream::fail(JsonhError::ExpectedArrayStart, pos, depth)
    } else if !may_enter(depth, options) {
        exceeded(start_array(), pos + 1, depth)
    } else {
        spec_read_array_items(s, pos + 1, depth + 1, options).after(seq![start_array()])
    }
}

/// Reading the items of an array from `pos` up to its `]`. The end of the
/// input ends the array where the options accept incomplete inputs. An item
/// that was read ends after the position at which it started
/// (`lemma_read_item`), so that the items after it are always read.
pub open spec fn spec_read_array_items(
    s: Seq<char>,
    pos: int,
    depth: int,
    options: JsonhReaderOptions,
) -> TokenStream
    decreases s.len() - pos, 9nat,
    when 0 <= pos <= s.len()
{
    let lead = spec_read_comments_and_whitespace(s, pos, depth, options.v2());
    if lead.error is Some {
        lead
    } else {
        proof {
            lemma_read_comments_and_whitespace(s, pos, depth, options.v2());
        }
        if lead.pos >= s.len() {
            if options.incomplete_inputs {
                lead.followed_by(TokenStream::single(end_array(), lead.pos, depth - 1))
            } else {
                lead.followed_by(TokenStream::fail(JsonhError::ExpectedArrayEnd, lead.pos, depth))
            }
        } else if is_char_at(s, lead.pos, ']') {
            lead.followed_by(TokenStream::single(end_array(), lead.pos + 1, depth - 1))
        } else {
            let item = spec_read_item(s, lead.pos, depth, options);
            if item.error is Some || !(lead.pos < item.pos <= s.len()) {
                item.after(lead.tokens)
            } else {
                spec_read_array_items(s, item.pos, item.depth, options).after(
                    lead.tokens + item.tokens,
                )
            }
        }
    }
}

/// Reading an item of an array, or the value of a property, from `pos`: an
/// element, comments and whitespace, and an optional comma.
pub open spec fn spec_read_item(
    s: Seq<char>,
    pos: int,
    depth: int,
    options: JsonhReaderOptions,
) -> TokenStream
    decreases s.len() - pos, 8nat,
    when 0 <= pos <= s.len()
{
    let element = spec_read_element(s, pos, depth, options);
    if element.error is Some {
        element
    } else {
        let trail = spec_read_comments_and_whitespace(
            s,
            element.pos,
            element.depth,
            options.v2(),
        );
        if trail.error is Some {
            element.followed_by(trail)
        } else {
            element.followed_by(TokenStream { pos: after_comma(s, trail.pos), ..trail })
        }
    }
}

/// A property name that was read has at least one character, and reading
/// stays inside the input and keeps the depth.
pub proof fn lemma_read_property_name(s: Seq<char>, pos: int, depth: int, v2: bool)
    requires
        0 <= pos <= s.len(),
    ensures
        pos <= spec_read_property_name(s, pos, depth, v2).pos <= s.len(),
        spec_read_property_name(s, pos, depth, v2).depth == depth,
        spec_read_property_name(s, pos, depth, v2).error is None ==> spec_read_property_name(
            s,
            pos,
            depth,
            v2,
        ).pos > pos,
{
    lemma_read_string(s, pos, v2);
    let name = spec_read_string(s, pos, v2);
    if name.result is Ok {
        lemma_read_comments_and_whitespace(s, name.pos, depth, v2);
    }
}

/// Reading what may follow the last element from `pos`: comments and
/// whitespace up to the end of the input. Anything else is an error.
pub open spec fn spec_read_end_of_elements(s: Seq<char>, pos: int, depth: int, v2: bool) -> TokenStream {
    let lead = spec_read_comments_and_whitespace(s, pos, depth, v2);
    if lead.pos < s.len() {
        lead.followed_by(TokenStream::fail(JsonhError::ExpectedEndOfElements, lead.pos, depth))
    } else {
        lead
    }
}

/// The tokens of a property name that was read before, as their values.
pub open spec fn initial_view(tokens: Option<Vec<JsonhToken>>) -> Option<Seq<JsonhTokenView>> {
    match tokens {
        Some(tokens) => Some(tokens_view(tokens@)),
        None => None,
    }
}

/// Whitespace before an element does not count: reading an element from
/// `pos` gives what reading it from the end of the whitespace at `pos` gives.
pub proof fn lemma_leading_whitespace(
    s: Seq<char>,
    pos: int,
    depth: int,
    options: JsonhReaderOptions,
)
    requires
        0 <= pos <= s.len(),
    ensures
        spec_read_element(s, pos, depth, options) == spec_read_element(
            s,
            whitespace_end(s, pos),
            depth,
            options,
        ),
{
    let start = whitespace_end(s, pos);
    lemma_whitespace_end(s, pos);
    assert(whitespace_end(s, start) == start);
    assert(spec_read_comments_and_whitespace(s, pos, depth, options.v2())
        == spec_read_comments_and_whitespace(s, start, depth, options.v2()));
}

/// Whether the stream `out`, read from `pos` at depth `depth`, stays inside
/// the input `s`, does not leave the depth at which it started, and is back
/// at that depth where it ended well.
pub open spec fn reads_within(out: TokenStream, s: Seq<char>, pos: int, depth: int) -> bool {
    &&& pos <= out.pos <= s.len()
    &&& out.depth >= depth
    &&& out.error is None ==> out.depth == depth
}

/// Whether the stream `out`, read from `pos` inside an object or array at
/// depth `depth`, stays inside the input `s`, and has left the object or
/// array where it ended well.
pub open spec fn closes_within(out: TokenStream, s: Seq<char>, pos: int, depth: int) -> bool {
    &&& pos <= out.pos <= s.len()
    &&& out.depth >= depth - 1
    &&& out.error is None ==> out.depth == depth - 1
}

/// An element is read inside the input; one that was read has at least one
/// character and leaves the depth as it was.
pub proof fn lemma_read_element(s: Seq<char>, pos: int, depth: int, options: JsonhReaderOptions)
    requires
        0 <= pos <= s.len(),
    ensures
        reads_within(spec_read_element(s, pos, depth, options), s, pos, depth),
        spec_read_element(s, pos, depth, options).error is None ==> spec_read_element(
            s,
            pos,
            depth,
            options,
        ).pos > pos,
    decreases s.len() - pos, 7nat,
{
    let lead = spec_read_comments_and_whitespace(s, pos, depth, options.v2());
    lemma_read_comments_and_whitespace(s, pos, depth, options.v2());
    if lead.error is None {
        lemma_read_primitive_element(s, lead.pos, options.v2());
        if is_char_at(s, lead.pos, '{') {
            lemma_read_object(s, lead.pos, depth, options);
        } else if is_char_at(s, lead.pos, '[') {
            lemma_read_array(s, lead.pos, depth, options);
        } else if lead.pos < s.len() {
            let primitive = spec_read_primitive_element(s, lead.pos, options.v2());
            if primitive.result is Ok {
                lemma_read_braceless_object_or_end_of_primitive(
                    s,
                    primitive.pos,
                    depth,
                    options,
                    primitive.result->Ok_0,
                );
            }
        }
    }
}

/// An object is read inside the input; one that was read leaves the depth as
/// it was, and one in braces has at least one character.
pub proof fn lemma_read_object(s: Seq<char>, pos: int, depth: int, options: JsonhReaderOptions)
    requires
        0 <= pos <= s.len(),
    ensures
        reads_within(spec_read_object(s, pos, depth, options), s, pos, depth),
        spec_read_object(s, pos, depth, options).error is None && is_char_at(s, pos, '{')
            ==> spec_read_object(s, pos, depth, options).pos > pos,
    decreases s.len() - pos, 6nat,
{
    if !is_char_at(s, pos, '{') {
        lemma_read_braceless_object(s, pos, depth, options, None);
    } else if may_enter(depth, options) {
        lemma_read_object_properties(s, pos + 1, depth + 1, options);
    }
}

/// The properties of an object in braces are read inside the input, and the
/// depth is one less after the object's end.
pub proof fn lemma_read_object_properties(
    s: Seq<char>,
    pos: int,
    depth: int,
    options: JsonhReaderOptions,
)
    requires
        0 <= pos <= s.len(),
    ensures
        closes_within(spec_read_object_properties(s, pos, depth, options), s, pos, depth),
    decreases s.len() - pos, 4nat,
{
    let lead = spec_read_comments_and_whitespace(s, pos, depth, options.v2());
    lemma_read_comments_and_whitespace(s, pos, depth, options.v2());
    if lead.error is None && lead.pos < s.len() && !is_char_at(s, lead.pos, '}') {
        let property = spec_read_property(s, lead.pos, depth, options, None);
        lemma_read_property(s, lead.pos, depth, options, None);
        if property.error is None {
            lemma_read_object_properties(s, property.pos, property.depth, options);
        }
    }
}

/// A braceless object is read inside the input; one that was read leaves the
/// depth as it was.
pub proof fn lemma_read_braceless_object(
    s: Seq<char>,
    pos: int,
    depth: int,
    options: JsonhReaderOptions,
    initial: Option<Seq<JsonhTokenView>>,
)
    requires
        0 <= pos <= s.len(),
    ensures
        reads_within(spec_read_braceless_object(s, pos, depth, options, initial), s, pos, depth),
    decreases
            s.len() - pos,
            (if initial is Some {
                10nat
            } else {
                5nat
            }),
{
    if may_enter(depth, options) {
        match initial {
            Some(tokens) => {
                let first = spec_read_property(s, pos, depth + 1, options, Some(tokens));
                lemma_read_property(s, pos, depth + 1, options, Some(tokens));
                if first.error is None {
                    lemma_read_braceless_properties(s, first.pos, first.depth, options);
                }
            },
            None => {
                lemma_read_braceless_properties(s, pos, depth + 1, options);
            },
        }
    }
}

/// The properties of a braceless object are read inside the input, and the
/// depth is one less after the object's end.
pub proof fn lemma_read_braceless_properties(
    s: Seq<char>,
    pos: int,
    depth: int,
    options: JsonhReaderOptions,
)
    requires
        0 <= pos <= s.len(),
    ensures
        closes_within(spec_read_braceless_properties(s, pos, depth, options), s, pos, depth),
    decreases s.len() - pos, 4nat,
{
    let lead = spec_read_comments_and_whitespace(s, pos, depth, options.v2());
    lemma_read_comments_and_whitespace(s, pos, depth, options.v2());
    if lead.error is None && lead.pos < s.len() {
        let property = spec_read_property(s, lead.pos, depth, options, None);
        lemma_read_property(s, lead.pos, depth, options, None);
        if property.error is None {
            lemma_read_braceless_properties(s, property.pos, property.depth, options);
        }
    }
}

/// What follows a primitive element is read inside the input and leaves the
/// depth as it was where it ends well.
pub proof fn lemma_read_braceless_object_or_end_of_primitive(
    s: Seq<char>,
    pos: int,
    depth: int,
    options: JsonhReaderOptions,
    primitive: JsonhTokenView,
)
    requires
        0 <= pos <= s.len(),
    ensures
        reads_within(
            spec_read_braceless_object_or_end_of_primitive(s, pos, depth, options, primitive),
            s,
            pos,
            depth,
        ),
    decreases s.len() - pos, 11nat,
{
    let lead = spec_read_comments_and_whitespace(s, pos, depth, options.v2());
    lemma_read_comments_and_whitespace(s, pos, depth, options.v2());
    if lead.error is None && is_char_at(s, lead.pos, ':') {
        lemma_read_braceless_object(
            s,
            lead.pos + 1,
            depth,
            options,
            Some(lead.tokens.push(property_name(primitive.value))),
        );
    }
}

/// A property is read inside the input; one that was read leaves the depth
/// as it was, and has at least one character where its name is read with it.
pub proof fn lemma_read_property(
    s: Seq<char>,
    pos: int,
    depth: int,
    options: JsonhReaderOptions,
    initial: Option<Seq<JsonhTokenView>>,
)
    requires
        0 <= pos <= s.len(),
    ensures
        reads_within(spec_read_property(s, pos, depth, options, initial), s, pos, depth),
        spec_read_property(s, pos, depth, options, initial).error is None && initial is None
            ==> spec_read_property(s, pos, depth, options, initial).pos > pos,
    decreases
            s.len() - pos,
            (if initial is Some {
                9nat
            } else {
                3nat
            }),
{
    let name = match initial {
        Some(tokens) => TokenStream { tokens, error: None, pos, depth },
        None => spec_read_property_name(s, pos, depth, options.v2()),
    };
    lemma_read_property_name(s, pos, depth, options.v2());
    if name.error is None {
        let lead = spec_read_comments_and_whitespace(s, name.pos, depth, options.v2());
        lemma_read_comments_and_whitespace(s, name.pos, depth, options.v2());
        if lead.error is None {
            lemma_read_item(s, lead.pos, depth, options);
        }
    }
}

/// An array is read inside the input; one that was read has at least one
/// character and leaves the depth as it was.
pub proof fn lemma_read_array(s: Seq<char>, pos: int, depth: int, options: JsonhReaderOptions)
    requires
        0 <= pos <= s.len(),
    ensures
        reads_within(spec_read_array(s, pos, depth, options), s, pos, depth),
        spec_read_array(s, pos, depth, options).error is None ==> spec_read_array(
            s,
            pos,
            depth,
            options,
        ).pos > pos,
    decreases s.len() - pos, 6nat,
{
    if is_char_at(s, pos, '[') && may_enter(depth, options) {
        lemma_read_array_items(s, pos + 1, depth + 1, options);
    }
}

/// The items of an array are read inside the input, and the depth is one
/// less after the array's end.
pub proof fn lemma_read_array_items(s: Seq<char>, pos: int, depth: int, options: JsonhReaderOptions)
    requires
        0 <= pos <= s.len(),
    ensures
        closes_within(spec_read_array_items(s, pos, depth, options), s, pos, depth),
    decreases s.len() - pos, 9nat,
{
    let lead = spec_read_comments_and_whitespace(s, pos, depth, options.v2());
    lemma_read_comments_and_whitespace(s, pos, depth, options.v2());
    if lead.error is None && lead.pos < s.len() && !is_char_at(s, lead.pos, ']') {
        let item = spec_read_item(s, lead.pos, depth, options);
        lemma_read_item(s, lead.pos, depth, options);
        if item.error is None {
            lemma_read_array_items(s, item.pos, item.depth, options);
        }
    }
}

/// An item is read inside the input; one that was read has at least one
/// character and leaves the depth as it was.
pub proof fn lemma_read_item(s: Seq<char>, pos: int, depth: int, options: JsonhReaderOptions)
    requires
        0 <= pos <= s.len(),
    ensures
        reads_within(spec_read_item(s, pos, depth, options), s, pos, depth),
        spec_read_item(s, pos, depth, options).error is None ==> spec_read_item(
            s,
            pos,
            depth,
            options,
        ).pos > pos,
    decreases s.len() - pos, 8nat,
{
    let element = spec_read_element(s, pos, depth, options);
    lemma_read_element(s, pos, depth, options);
    if element.error is None {
        lemma_read_comments_and_whitespace(s, element.pos, element.depth, options.v2());
    }
}

impl JsonhReader {
    /// Whether this reader and the tokens `tokens_after` are what reading the
    /// stream `out` makes of the reader `before` and the tokens
    /// `tokens_before`, and `r` is how the stream ended.
    pub open spec fn emitted(
        &self,
        before: &Self,
        tokens_before: Seq<JsonhToken>,
        tokens_after: Seq<JsonhToken>,
        r: Result<(), JsonhError>,
        out: TokenStream,
    ) -> bool {
        &&& self.continues(before, out.pos, out.depth)
        &&& tokens_view(tokens_after) == tokens_view(tokens_before) + out.tokens
        &&& r == out.outcome()
    }

    /// Counts an object or array that opens, and returns whether the depth
    /// inside it is within the maximum depth.
    pub fn enter(&mut self) -> (r: bool)
        requires
            old(self).wf(),
        ensures
            final(self).wf(),
            final(self).continues(old(self), old(self).position(), entered(old(self).depth as int)),
            r == may_enter(old(self).depth as int, old(self).options),
    {
        let within = self.depth < self.options.max_depth;
        if self.depth < i32::MAX {
            self.depth = self.depth + 1;
        }
        within
    }

    /// Reads a property name and appends its tokens to `tokens`: the comments
    /// between the name and `:`, then the name.
    pub fn read_property_name(&mut self, tokens: &mut Vec<JsonhToken>) -> (r: Result<
        (),
        JsonhError,
    >)
        requires
            old(self).wf(),
        ensures
            final(self).wf(),
            final(self).emitted(
                old(self),
                old(tokens)@,
                final(tokens)@,
                r,
                spec_read_property_name(
                    old(self).source@,
                    old(self).position(),
                    old(self).depth as int,
                    old(self).options.v2(),
                ),
            ),
    {
        let ghost base = tokens_view(tokens@);
        let ghost string = spec_read_string(
            self.source@,
            self.position(),
            self.options.v2(),
        );
        let ghost lead = spec_read_comments_and_whitespace(
            self.source@,
            string.pos,
            self.depth as int,
            self.options.v2(),
        );
        // String
        let name = match self.read_string() {
            Ok(name) => name,
            Err(err) => {
                assert(base + Seq::<JsonhTokenView>::empty() =~= base);
                return Err(err);
            },
        };
        // Comments & whitespace
        proof {
            lemma_read_comments_and_whitespace(
                self.source@,
                string.pos,
                self.depth as int,
                self.options.v2(),
            );
        }
        match self.read_comments_and_whitespace(tokens) {
            Ok(()) => {},
            Err(err) => { return Err(err); },
        }
        // Colon
        if !self.read_one(':') {
            assert(base + (lead.tokens + Seq::<JsonhTokenView>::empty()) =~= base + lead.tokens);
            return Err(JsonhError::ExpectedColon);
        }
        // End of property name
        push_token(tokens, JsonhToken::new(JsonTokenType::PropertyName, name.value));
        assert(base + (lead.tokens + seq![property_name(name.value@)]) =~= (base + lead.tokens)
            + seq![property_name(name.value@)]);
        Ok(())
    }

    /// Reads a single element and appends its tokens to `tokens`.
    pub fn read_element_into(&mut self, tokens: &mut Vec<JsonhToken>) -> (r: Result<
        (),
        JsonhError,
    >)
        requires
            old(self).wf(),
        ensures
            final(self).wf(),
            final(self).emitted(
                old(self),
                old(tokens)@,
                final(tokens)@,
                r,
                spec_read_element(
                    old(self).source@,
                    old(self).position(),
                    old(self).depth as int,
                    old(self).options,
                ),
            ),
        decreases old(self).source.len() - old(self).char_counter, 7nat,
    {
        let ghost base = tokens_view(tokens@);
        let ghost s = self.source@;
        let ghost depth = self.depth as int;
        let ghost options = self.options;
        let ghost lead = spec_read_comments_and_whitespace(s, self.position(), depth, options.v2());
        proof {
            lemma_read_comments_and_whitespace(s, self.position(), depth, options.v2());
        }
        // Comments & whitespace
        match self.read_comments_and_whitespace(tokens) {
            Ok(()) => {},
            Err(err) => { return Err(err); },
        }
        // Peek char
        let next = match self.peek() {
            Some(c) => c,
            None => {
                assert(base + (lead.tokens + Seq::<JsonhTokenView>::empty()) =~= base
                    + lead.tokens);
                return Err(JsonhError::ExpectedToken);
            },
        };
        if next == '{' {
            // Object
            let r = self.read_object(tokens);
            proof {
                let inner = spec_read_object(s, lead.pos, depth, options);
                assert(base + (lead.tokens + inner.tokens) =~= (base + lead.tokens)
                    + inner.tokens);
            }
            r
        } else if next == '[' {
            // Array
            let r = self.read_array(tokens);
            proof {
                let inner = spec_read_array(s, lead.pos, depth, options);
                assert(base + (lead.tokens + inner.tokens) =~= (base + lead.tokens)
                    + inner.tokens);
            }
            r
        } else {
            // Primitive value (null, true, false, string, number)
            proof {
                lemma_read_primitive_element(s, lead.pos, options.v2());
            }
            let token = match self.read_primitive_element() {
                Ok(token) => token,
                Err(err) => {
                    assert(base + (lead.tokens + Seq::<JsonhTokenView>::empty()) =~= base
                        + lead.tokens);
                    return Err(err);
                },
            };
            // Detect braceless object from property name
            let ghost primitive = token@;
            let ghost after = self.position();
            let r = self.read_braceless_object_or_end_of_primitive(tokens, token);
            proof {
                let inner = spec_read_braceless_object_or_end_of_primitive(
                    s,
                    after,
                    depth,
                    options,
                    primitive,
                );
                assert(base + (lead.tokens + inner.tokens) =~= (base + lead.tokens)
                    + inner.tokens);
            }
            r
        }
    }

    /// Reads an object and appends its tokens to `tokens`.
    pub fn read_object(&mut self, tokens: &mut Vec<JsonhToken>) -> (r: Result<(), JsonhError>)
        requires
            old(self).wf(),
        ensures
            final(self).wf(),
            final(self).emitted(
                old(self),
                old(tokens)@,
                final(tokens)@,
                r,
                spec_read_object(
                    old(self).source@,
                    old(self).position(),
                    old(self).depth as int,
                    old(self).options,
                ),
            ),
        decreases old(self).source.len() - old(self).char_counter, 6nat,
    {
        let ghost base = tokens_view(tokens@);
        let ghost s = self.source@;
        let ghost options = self.options;
        // Opening brace
        if !self.read_one('{') {
            // Braceless object
            return self.read_braceless_object(tokens, None);
        }
        // Start of object
        push_token(tokens, JsonhToken::new_empty(JsonTokenType::StartObject));
        // Check exceeded max depth
        if !self.enter() {
            return Err(JsonhError::ExceededMaxDepth);
        }
        // Properties and end of object
        let ghost inner = spec_read_object_properties(s, self.position(), self.depth as int, options);
        let r = self.read_object_properties(tokens);
        assert(base + (seq![start_object()] + inner.tokens) =~= (base + seq![start_object()])
            + inner.tokens);
        r
    }

    /// Reads the properties of an object in braces up to its `}`, and appends
    /// their tokens and the token of the object's end to `tokens`.
    pub fn read_object_properties(&mut self, tokens: &mut Vec<JsonhToken>) -> (r: Result<(), JsonhError>)
        requires
            old(self).wf(),
            old(self).depth >= 1,
        ensures
            final(self).wf(),
            final(self).emitted(
                old(self),
                old(tokens)@,
                final(tokens)@,
                r,
                spec_read_object_properties(
                    old(self).source@,
                    old(self).position(),
                    old(self).depth as int,
                    old(self).options,
                ),
            ),
        decreases old(self).source.len() - old(self).char_counter, 4nat,
    {
        let ghost base = tokens_view(tokens@);
        let ghost s = self.source@;
        let ghost options = self.options;
        let ghost total = spec_read_object_properties(s, self.position(), self.depth as int, options).after(base);
        loop
            invariant
                self.wf(),
                old(self).wf(),
                self.source == old(self).source,
                self.options == old(self).options,
                self.position() >= old(self).position(),
                self.depth >= 1,
                s == self.source@,
                options == self.options,
                base == tokens_view(old(tokens)@),
                spec_read_object_properties(s, self.position(), self.depth as int, options).after(
                    tokens_view(tokens@),
                ) == total,
                total == spec_read_object_properties(
                    s,
                    old(self).position(),
                    old(self).depth as int,
                    options,
                ).after(base),
            decreases self.source.len() - self.char_counter,
        {
            let ghost before = tokens_view(tokens@);
            let ghost depth = self.depth as int;
            let ghost lead = spec_read_comments_and_whitespace(
                s,
                self.position(),
                depth,
                options.v2(),
            );
            proof {
                lemma_read_comments_and_whitespace(s, self.position(), depth, options.v2());
            }
            // Comments & whitespace
            match self.read_comments_and_whitespace(tokens) {
                Ok(()) => {},
                Err(err) => { return Err(err); },
            }
            match self.peek() {
                None => {
                    if self.options.incomplete_inputs {
                        // End of incomplete input
                        self.depth = self.depth - 1;
                        push_token(tokens, JsonhToken::new_empty(JsonTokenType::EndObject));
                        assert(before + (lead.tokens + seq![end_object()]) =~= (before
                            + lead.tokens) + seq![end_object()]);
                        return Ok(());
                    }
                    // Missing closing character
                    assert(before + (lead.tokens + Seq::<JsonhTokenView>::empty()) =~= before
                        + lead.tokens);
                    return Err(JsonhError::ExpectedObjectEnd);
                },
                Some(next) => {
                    if next == '}' {
                        // Closing character
                        self.read();
                        self.depth = self.depth - 1;
                        push_token(tokens, JsonhToken::new_empty(JsonTokenType::EndObject));
                        assert(before + (lead.tokens + seq![end_object()]) =~= (before
                            + lead.tokens) + seq![end_object()]);
                        return Ok(());
                    }
                },
            }
            // Next property or item
            let ghost inner = spec_read_property(s, lead.pos, depth, options, None);
            proof {
                lemma_read_property(s, lead.pos, depth, options, None);
                assert(before + (lead.tokens + inner.tokens) =~= (before + lead.tokens)
                    + inner.tokens);
            }
            match self.read_property(tokens, None) {
                Ok(()) => {},
                Err(err) => { return Err(err); },
            }
            proof {
                lemma_after_after(
                    spec_read_object_properties(s, inner.pos, inner.depth, options),
                    lead.tokens + inner.tokens,
                    before,
                );
            }
        }
    }

    /// Reads a braceless object, which runs to the end of the input, and
    /// appends its tokens to `tokens`. `property_name_tokens` holds the tokens
    /// of the first property's name where the name was read before.
    pub fn read_braceless_object(
        &mut self,
        tokens: &mut Vec<JsonhToken>,
        property_name_tokens: Option<Vec<JsonhToken>>,
    ) -> (r: Result<(), JsonhError>)
        requires
            old(self).wf(),
        ensures
            final(self).wf(),
            final(self).emitted(
                old(self),
                old(tokens)@,
                final(tokens)@,
                r,
                spec_read_braceless_object(
                    old(self).source@,
                    old(self).position(),
                    old(self).depth as int,
                    old(self).options,
                    initial_view(property_name_tokens),
                ),
            ),
        decreases
                old(self).source.len() - old(self).char_counter,
                (if property_name_tokens is Some {
                    10nat
                } else {
                    5nat
                }),
    {
        let ghost base = tokens_view(tokens@);
        let ghost s = self.source@;
        let ghost options = self.options;
        let ghost start = self.position();
        // Start of object
        push_token(tokens, JsonhToken::new_empty(JsonTokenType::StartObject));
        // Check exceeded max depth
        if !self.enter() {
            return Err(JsonhError::ExceededMaxDepth);
        }
        let ghost first = match initial_view(property_name_tokens) {
            Some(name_tokens) => spec_read_property(
                s,
                start,
                self.depth as int,
                options,
                Some(name_tokens),
            ),
            None => TokenStream::empty(start, self.depth as int),
        };
        // Initial tokens
        match property_name_tokens {
            Some(name_tokens) => {
                proof {
                    lemma_read_property(
                        s,
                        start,
                        self.depth as int,
                        options,
                        Some(tokens_view(name_tokens@)),
                    );
                    assert(base + (seq![start_object()] + first.tokens) =~= (base + seq![
                        start_object(),
                    ]) + first.tokens);
                }
                match self.read_property(tokens, Some(name_tokens)) {
                    Ok(()) => {},
                    Err(err) => { return Err(err); },
                }
            },
            None => {
                assert(base + seq![start_object()] + first.tokens =~= base + seq![
                    start_object(),
                ]);
            },
        }
        // Properties and end of object
        let ghost inner = spec_read_braceless_properties(
            s,
            self.position(),
            self.depth as int,
            options,
        );
        let r = self.read_braceless_properties(tokens);
        proof {
            assert(base + ((seq![start_object()] + first.tokens) + inner.tokens) =~= ((base
                + seq![start_object()]) + first.tokens) + inner.tokens);
            assert(seq![start_object()] + first.tokens + inner.tokens =~= seq![start_object()]
                + (first.tokens + inner.tokens));
            if property_name_tokens is None {
                assert(seq![start_object()] + first.tokens =~= seq![start_object()]);
            }
        }
        r
    }

    /// Reads the properties of a braceless object up to the end of the input,
    /// and appends their tokens and the token of the object's end to `tokens`.
    pub fn read_braceless_properties(&mut self, tokens: &mut Vec<JsonhToken>) -> (r: Result<(), JsonhError>)
        requires
            old(self).wf(),
            old(self).depth >= 1,
        ensures
            final(self).wf(),
            final(self).emitted(
                old(self),
                old(tokens)@,
                final(tokens)@,
                r,
                spec_read_braceless_properties(
                    old(self).source@,
                    old(self).position(),
                    old(self).depth as int,
                    old(self).options,
                ),
            ),
        decreases old(self).source.len() - old(self).char_counter, 4nat,
    {
        let ghost base = tokens_view(tokens@);
        let ghost s = self.source@;
        let ghost options = self.options;
        let ghost total = spec_read_braceless_properties(s, self.position(), self.depth as int, options).after(base);
        loop
            invariant
                self.wf(),
                old(self).wf(),
                self.source == old(self).source,
                self.options == old(self).options,
                self.position() >= old(self).position(),
                self.depth >= 1,
                s == self.source@,
                options == self.options,
                base == tokens_view(old(tokens)@),
                spec_read_braceless_properties(s, self.position(), self.depth as int, options).after(
                    tokens_view(tokens@),
                ) == total,
                total == spec_read_braceless_properties(
                    s,
                    old(self).position(),
                    old(self).depth as int,
                    options,
                ).after(base),
            decreases self.source.len() - self.char_counter,
        {
            let ghost before = tokens_view(tokens@);
            let ghost depth = self.depth as int;
            let ghost lead = spec_read_comments_and_whitespace(
                s,
                self.position(),
                depth,
                options.v2(),
            );
            proof {
                lemma_read_comments_and_whitespace(s, self.position(), depth, options.v2());
            }
            // Comments & whitespace
            match self.read_comments_and_whitespace(tokens) {
                Ok(()) => {},
                Err(err) => { return Err(err); },
            }
            if self.peek().is_none() {
                // End of braceless object
                self.depth = self.depth - 1;
                push_token(tokens, JsonhToken::new_empty(JsonTokenType::EndObject));
                assert(before + (lead.tokens + seq![end_object()]) =~= (before + lead.tokens)
                    + seq![end_object()]);
                return Ok(());
            }
            // Next property or item
            let ghost inner = spec_read_property(s, lead.pos, depth, options, None);
            proof {
                lemma_read_property(s, lead.pos, depth, options, None);
                assert(before + (lead.tokens + inner.tokens) =~= (before + lead.tokens)
                    + inner.tokens);
            }
            match self.read_property(tokens, None) {
                Ok(()) => {},
                Err(err) => { return Err(err); },
            }
            proof {
                lemma_after_after(
                    spec_read_braceless_properties(s, inner.pos, inner.depth, options),
                    lead.tokens + inner.tokens,
                    before,
                );
            }
        }
    }

    /// Decides whether the primitive element `primitive_token`, which was
    /// just read, is an element by itself or the name of the first property of
    /// a braceless object, and appends the tokens of the one or the other to
    /// `tokens`.
    pub fn read_braceless_object_or_end_of_primitive(
        &mut self,
        tokens: &mut Vec<JsonhToken>,
        primitive_token: JsonhToken,
    ) -> (r: Result<(), JsonhError>)
        requires
            old(self).wf(),
        ensures
            final(self).wf(),
            final(self).emitted(
                old(self),
                old(tokens)@,
                final(tokens)@,
                r,
                spec_read_braceless_object_or_end_of_primitive(
                    old(self).source@,
                    old(self).position(),
                    old(self).depth as int,
                    old(self).options,
                    primitive_token@,
                ),
            ),
        decreases old(self).source.len() - old(self).char_counter, 11nat,
    {
        let ghost base = tokens_view(tokens@);
        let ghost s = self.source@;
        let ghost depth = self.depth as int;
        let ghost options = self.options;
        let ghost lead = spec_read_comments_and_whitespace(s, self.position(), depth, options.v2());
        proof {
            lemma_read_comments_and_whitespace(s, self.position(), depth, options.v2());
        }
        // Comments & whitespace
        let mut property_name_tokens: Vec<JsonhToken> = Vec::new();
        assert(tokens_view(property_name_tokens@) =~= Seq::<JsonhTokenView>::empty());
        match self.read_comments_and_whitespace(&mut property_name_tokens) {
            Ok(()) => {},
            Err(err) => {
                assert(base + Seq::<JsonhTokenView>::empty() =~= base);
                return Err(err);
            },
        }
        assert(tokens_view(property_name_tokens@) =~= lead.tokens);
        if !self.read_one(':') {
            // Primitive
            push_token(tokens, primitive_token);
            // Comments & whitespace
            append_tokens(tokens, property_name_tokens);
            assert(base + (seq![primitive_token@] + lead.tokens) =~= (base + seq![
                primitive_token@,
            ]) + lead.tokens);
            // End of primitive
            return Ok(());
        }
        // Property name
        push_token(
            &mut property_name_tokens,
            JsonhToken::new(JsonTokenType::PropertyName, primitive_token.value),
        );
        // Braceless object
        self.read_braceless_object(tokens, Some(property_name_tokens))
    }

    /// Reads a property and appends its tokens to `tokens`.
    /// `property_name_tokens` holds the tokens of the name where the name was
    /// read before.
    pub fn read_property(
        &mut self,
        tokens: &mut Vec<JsonhToken>,
        property_name_tokens: Option<Vec<JsonhToken>>,
    ) -> (r: Result<(), JsonhError>)
        requires
            old(self).wf(),
        ensures
            final(self).wf(),
            final(self).emitted(
                old(self),
                old(tokens)@,
                final(tokens)@,
                r,
                spec_read_property(
                    old(self).source@,
                    old(self).position(),
                    old(self).depth as int,
                    old(self).options,
                    initial_view(property_name_tokens),
                ),
            ),
        decreases
                old(self).source.len() - old(self).char_counter,
                (if property_name_tokens is Some {
                    9nat
                } else {
                    3nat
                }),
    {
        let ghost base = tokens_view(tokens@);
        let ghost s = self.source@;
        let ghost depth = self.depth as int;
        let ghost options = self.options;
        let ghost name = match initial_view(property_name_tokens) {
            Some(name_tokens) => TokenStream {
                tokens: name_tokens,
                error: None,
                pos: self.position(),
                depth,
            },
            None => spec_read_property_name(s, self.position(), depth, options.v2()),
        };
        proof {
            lemma_read_property_name(s, self.position(), depth, options.v2());
        }
        // Property name
        match property_name_tokens {
            Some(name_tokens) => {
                append_tokens(tokens, name_tokens);
            },
            None => {
                match self.read_property_name(tokens) {
                    Ok(()) => {},
                    Err(err) => { return Err(err); },
                }
            },
        }
        let ghost lead = spec_read_comments_and_whitespace(s, name.pos, depth, options.v2());
        proof {
            lemma_read_comments_and_whitespace(s, name.pos, depth, options.v2());
        }
        // Comments & whitespace
        match self.read_comments_and_whitespace(tokens) {
            Ok(()) => {},
            Err(err) => {
                assert(base + (name.tokens + lead.tokens) =~= (base + name.tokens)
                    + lead.tokens);
                return Err(err);
            },
        }
        // Property value, comments & whitespace, optional comma
        let r = self.read_item(tokens);
        proof {
            let item = spec_read_item(s, lead.pos, depth, options);
            assert(base + ((name.tokens + lead.tokens) + item.tokens) =~= ((base + name.tokens)
                + lead.tokens) + item.tokens);
        }
        r
    }

    /// Reads an array and appends its tokens to `tokens`.
    pub fn read_array(&mut self, tokens: &mut Vec<JsonhToken>) -> (r: Result<(), JsonhError>)
        requires
            old(self).wf(),
        ensures
            final(self).wf(),
            final(self).emitted(
                old(self),
                old(tokens)@,
                final(tokens)@,
                r,
                spec_read_array(
                    old(self).source@,
                    old(self).position(),
                    old(self).depth as int,
                    old(self).options,
                ),
            ),
        decreases old(self).source.len() - old(self).char_counter, 6nat,
    {
        let ghost base = tokens_view(tokens@);
        let ghost s = self.source@;
        let ghost options = self.options;
        // Opening bracket
        if !self.read_one('[') {
            assert(base + Seq::<JsonhTokenView>::empty() =~= base);
            return Err(JsonhError::ExpectedArrayStart);
        }
        // Start of array
        push_token(tokens, JsonhToken::new_empty(JsonTokenType::StartArray));
        // Check exceeded max depth
        if !self.enter() {
            return Err(JsonhError::ExceededMaxDepth);
        }
        // Items and end of array
        let ghost inner = spec_read_array_items(s, self.position(), self.depth as int, options);
        let r = self.read_array_items(tokens);
        assert(base + (seq![start_array()] + inner.tokens) =~= (base + seq![start_array()])
            + inner.tokens);
        r
    }

    /// Reads the items of an array up to its `]`, and appends their tokens and
    /// the token of the array's end to `tokens`.
    pub fn read_array_items(&mut self, tokens: &mut Vec<JsonhToken>) -> (r: Result<(), JsonhError>)
        requires
            old(self).wf(),
            old(self).depth >= 1,
        ensures
            final(self).wf(),
            final(self).emitted(
                old(self),
                old(tokens)@,
                final(tokens)@,
                r,
                spec_read_array_items(
                    old(self).source@,
                    old(self).position(),
                    old(self).depth as int,
                    old(self).options,
                ),
            ),
        decreases old(self).source.len() - old(self).char_counter, 9nat,
    {
        let ghost base = tokens_view(tokens@);
        let ghost s = self.source@;
        let ghost options = self.options;
        let ghost total = spec_read_array_items(s, self.position(), self.depth as int, options).after(base);
        loop
            invariant
                self.wf(),
                old(self).wf(),
                self.source == old(self).source,
                self.options == old(self).options,
                self.position() >= old(self).position(),
                self.depth >= 1,
                s == self.source@,
                options == self.options,
                base == tokens_view(old(tokens)@),
                spec_read_array_items(s, self.position(), self.depth as int, options).after(
                    tokens_view(tokens@),
                ) == total,
                total == spec_read_array_items(
                    s,
                    old(self).position(),
                    old(self).depth as int,
                    options,
                ).after(base),
            decreases self.source.len() - self.char_counter,
        {
            let ghost before = tokens_view(tokens@);
            let ghost depth = self.depth as int;
            let ghost lead = spec_read_comments_and_whitespace(
                s,
                self.position(),
                depth,
                options.v2(),
            );
            proof {
                lemma_read_comments_and_whitespace(s, self.position(), depth, options.v2());
            }
            // Comments & whitespace
            match self.read_comments_and_whitespace(tokens) {
                Ok(()) => {},
                Err(err) => { return Err(err); },
            }
            match self.peek() {
                None => {
                    if self.options.incomplete_inputs {
                        // End of incomplete input
                        self.depth = self.depth - 1;
                        push_token(tokens, JsonhToken::new_empty(JsonTokenType::EndArray));
                        assert(before + (lead.tokens + seq![end_array()]) =~= (before
                            + lead.tokens) + seq![end_array()]);
                        return Ok(());
                    }
                    // Missing closing character
                    assert(before + (lead.tokens + Seq::<JsonhTokenView>::empty()) =~= before
                        + lead.tokens);
                    return Err(JsonhError::ExpectedArrayEnd);
                },
                Some(next) => {
                    if next == ']' {
                        // Closing character
                        self.read();
                        self.depth = self.depth - 1;
                        push_token(tokens, JsonhToken::new_empty(JsonTokenType::EndArray));
                        assert(before + (lead.tokens + seq![end_array()]) =~= (before
                            + lead.tokens) + seq![end_array()]);
                        return Ok(());
                    }
                },
            }
            // Next property or item
            let ghost inner = spec_read_item(s, lead.pos, depth, options);
            proof {
                lemma_read_item(s, lead.pos, depth, options);
                assert(before + (lead.tokens + inner.tokens) =~= (before + lead.tokens)
                    + inner.tokens);
            }
            match self.read_item(tokens) {
                Ok(()) => {},
                Err(err) => { return Err(err); },
            }
            proof {
                lemma_after_after(
                    spec_read_array_items(s, inner.pos, inner.depth, options),
                    lead.tokens + inner.tokens,
                    before,
                );
            }
        }
    }

    /// Reads an item of an array, or the value of a property, and appends its
    /// tokens to `tokens`: an element, comments and whitespace, and an
    /// optional comma.
    pub fn read_item(&mut self, tokens: &mut Vec<JsonhToken>) -> (r: Result<(), JsonhError>)
        requires
            old(self).wf(),
        ensures
            final(self).wf(),
            final(self).emitted(
                old(self),
                old(tokens)@,
                final(tokens)@,
                r,
                spec_read_item(
                    old(self).source@,
                    old(self).position(),
                    old(self).depth as int,
                    old(self).options,
                ),
            ),
        decreases old(self).source.len() - old(self).char_counter, 8nat,
    {
        let ghost base = tokens_view(tokens@);
        let ghost s = self.source@;
        let ghost options = self.options;
        let ghost element = spec_read_element(s, self.position(), self.depth as int, options);
        proof {
            lemma_read_element(s, self.position(), self.depth as int, options);
        }
        // Element
        match self.read_element_into(tokens) {
            Ok(()) => {},
            Err(err) => { return Err(err); },
        }
        let ghost trail = spec_read_comments_and_whitespace(
            s,
            element.pos,
            element.depth,
            options.v2(),
        );
        proof {
            lemma_read_comments_and_whitespace(s, element.pos, element.depth, options.v2());
            assert(base + (element.tokens + trail.tokens) =~= (base + element.tokens)
                + trail.tokens);
        }
        // Comments & whitespace
        match self.read_comments_and_whitespace(tokens) {
            Ok(()) => {},
            Err(err) => { return Err(err); },
        }
        // Optional comma
        self.read_one(',');
        Ok(())
    }

    /// Reads a single element from the reader and returns its stream: the
    /// tokens in the order of the input, and last the error, if reading
    /// failed. After an element that was read, the depth is what it was, and
    /// the start and end tokens of its stream are balanced.
    pub fn read_element(&mut self) -> (r: Vec<Result<JsonhToken, JsonhError>>)
        requires
            old(self).wf(),
        ensures
            final(self).wf(),
            ({
                let out = spec_read_element(
                    old(self).source@,
                    old(self).position(),
                    old(self).depth as int,
                    old(self).options,
                );
                &&& final(self).continues(old(self), out.pos, out.depth)
                &&& results_view(r@) == out.results()
                &&& out.error is None ==> final(self).depth == old(self).depth
                &&& out.error is None ==> is_balanced(out.tokens)
                &&& is_balanced_so_far(out.tokens)
            }),
            old(self).char_counter <= final(self).char_counter,
    {
        proof {
            lemma_read_element(
                self.source@,
                self.position(),
                self.depth as int,
                self.options,
            );
            lemma_element_tokens_balanced(
                self.source@,
                self.position(),
                self.depth as int,
                self.options,
            );
        }
        let mut tokens: Vec<JsonhToken> = Vec::new();
        assert(tokens_view(tokens@) =~= Seq::<JsonhTokenView>::empty());
        let end = self.read_element_into(&mut tokens);
        proof {
            let out = spec_read_element(
                old(self).source@,
                old(self).position(),
                old(self).depth as int,
                old(self).options,
            );
            assert(tokens_view(tokens@) =~= out.tokens);
        }
        stream_results(&tokens, end)
    }

    /// Reads comments and whitespace and errors if the reader contains
    /// another element. Returns the stream of the comments, and last the
    /// error, if there is one.
    pub fn read_end_of_elements(&mut self) -> (r: Vec<Result<JsonhToken, JsonhError>>)
        requires
            old(self).wf(),
        ensures
            final(self).wf(),
            ({
                let out = spec_read_end_of_elements(
                    old(self).source@,
                    old(self).position(),
                    old(self).depth as int,
                    old(self).options.v2(),
                );
                &&& final(self).continues(old(self), out.pos, old(self).depth as int)
                &&& results_view(r@) == out.results()
            }),
            old(self).char_counter <= final(self).char_counter,
    {
        let mut tokens: Vec<JsonhToken> = Vec::new();
        assert(tokens_view(tokens@) =~= Seq::<JsonhTokenView>::empty());
        // Comments & whitespace
        let mut end = self.read_comments_and_whitespace(&mut tokens);
        proof {
            let lead = spec_read_comments_and_whitespace(
                old(self).source@,
                old(self).position(),
                old(self).depth as int,
                old(self).options.v2(),
            );
            lemma_read_comments_and_whitespace(
                old(self).source@,
                old(self).position(),
                old(self).depth as int,
                old(self).options.v2(),
            );
            assert(tokens_view(tokens@) =~= lead.tokens);
            assert(lead.tokens + Seq::<JsonhTokenView>::empty() =~= lead.tokens);
        }
        // Peek char
        if end.is_ok() && self.peek().is_some() {
            end = Err(JsonhError::ExpectedEndOfElements);
        }
        stream_results(&tokens, end)
    }
}

} // verus!