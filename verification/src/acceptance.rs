//! The law of acceptance: the value builder has a place for every token of
//! the stream of an element, so that an element that was read has a value.
use vstd::prelude::*;
use crate::comments::{lemma_read_comments_and_whitespace, spec_read_comments_and_whitespace};
use crate::elements::{
    end_array,
    end_object,
    lemma_read_element,
    lemma_read_item,
    lemma_read_property,
    lemma_read_property_name,
    may_enter,
    property_name,
    spec_read_array,
    spec_read_array_items,
    spec_read_braceless_object,
    spec_read_braceless_object_or_end_of_primitive,
    spec_read_braceless_properties,
    spec_read_element,
    spec_read_item,
    spec_read_object,
    spec_read_object_properties,
    spec_read_property,
    spec_read_property_name,
    start_array,
    start_object,
};
use crate::balance::lemma_primitive_kind;
use crate::json_token_type::JsonTokenType;
use crate::jsonh_error::JsonhError;
use crate::jsonh_reader::is_char_at;
use crate::jsonh_reader_options::JsonhReaderOptions;
use crate::jsonh_token::{JsonhTokenView, TokenStream};
use crate::jsonh_value::{attachable, attached, JsonhValueView};
use crate::jsonh_value_builder::{
    spec_build_value,
    JsonhBuildStep,
    JsonhBuilderFrameView,
    JsonhValueBuilderView,
};
use crate::numbers::{lemma_read_primitive_element, spec_read_primitive_element};
use crate::strings::{lemma_read_string, spec_read_string};

verus! {

/// The shape of a builder: for each object or array that is open, the
/// outermost first, whether it is an object; and whether a property name
/// waits for its value.
pub struct Shape {
    pub open: Seq<bool>,
    pub named: bool,
}

/// What a token does to the shape of a builder.
pub enum ShapeStep {
    Continue(Shape),
    Finished,
    Failed,
}

/// Whether a builder of the shape `shape` has a place for a value: it is the
/// root, or an item of an array, or the value of the property whose name
/// waits in an object.
pub open spec fn takes_value(shape: Shape) -> bool {
    if shape.open.len() == 0 {
        !shape.named
    } else {
        shape.open.last() == shape.named
    }
}

/// What a token of the kind `kind` does to a builder of the shape `shape`.
pub open spec fn shape_accept(shape: Shape, kind: JsonTokenType) -> ShapeStep {
    if kind.is_primitive() {
        if shape.open.len() == 0 {
            ShapeStep::Finished
        } else if shape.open.last() == shape.named {
            ShapeStep::Continue(Shape { open: shape.open, named: false })
        } else {
            ShapeStep::Failed
        }
    } else if kind.is_start() {
        if shape.open.len() == 0 {
            ShapeStep::Continue(
                Shape { open: seq![kind == JsonTokenType::StartObject], named: shape.named },
            )
        } else if shape.open.last() == shape.named {
            ShapeStep::Continue(
                Shape { open: shape.open.push(kind == JsonTokenType::StartObject), named: false },
            )
        } else {
            ShapeStep::Failed
        }
    } else if kind.is_end() {
        if shape.open.len() == 0 {
            ShapeStep::Failed
        } else if shape.open.len() == 1 {
            ShapeStep::Finished
        } else {
            ShapeStep::Continue(Shape { open: shape.open.drop_last(), named: shape.named })
        }
    } else if kind == JsonTokenType::PropertyName {
        ShapeStep::Continue(Shape { open: shape.open, named: true })
    } else {
        ShapeStep::Continue(shape)
    }
}

/// What the tokens `tokens` do to a builder of the shape `shape`, up to the
/// first token that completes the root value or has no place.
pub open spec fn shape_run(shape: Shape, tokens: Seq<JsonhTokenView>) -> ShapeStep
    decreases tokens.len(),
{
    if tokens.len() == 0 {
        ShapeStep::Continue(shape)
    } else {
        match shape_accept(shape, tokens[0].json_type) {
            ShapeStep::Continue(next) => shape_run(next, tokens.subrange(1, tokens.len() as int)),
            other => other,
        }
    }
}

/// The shape after a value has taken its place in a builder of the shape
/// `shape`.
pub open spec fn value_done(shape: Shape) -> ShapeStep {
    if shape.open.len() == 0 {
        ShapeStep::Finished
    } else {
        ShapeStep::Continue(Shape { open: shape.open, named: false })
    }
}

/// The shape after the innermost open object or array of a builder of the
/// shape `shape` has ended.
pub open spec fn container_done(shape: Shape) -> ShapeStep {
    if shape.open.len() == 1 {
        ShapeStep::Finished
    } else {
        ShapeStep::Continue(Shape { open: shape.open.drop_last(), named: false })
    }
}

/// Whether the stream `out` takes a builder of the shape `shape` to `done`
/// where it ended well, and where it failed leaves the builder waiting for
/// more tokens.
pub open spec fn leads_to(out: TokenStream, shape: Shape, done: ShapeStep) -> bool {
    &&& out.error is None ==> shape_run(shape, out.tokens) == done
    &&& out.error is Some ==> shape_run(shape, out.tokens) is Continue
}

/// Whether a builder of the shape `shape` is inside an object and waits for
/// a property name or the end of the object.
pub open spec fn in_object(shape: Shape) -> bool {
    shape.open.len() > 0 && shape.open.last() && !shape.named
}

/// Whether a builder of the shape `shape` is inside an array.
pub open spec fn in_array(shape: Shape) -> bool {
    shape.open.len() > 0 && !shape.open.last() && !shape.named
}

/// What tokens in a row do to a shape is what the second do to the shape
/// that the first leave.
pub proof fn lemma_shape_concat(
    shape: Shape,
    first: Seq<JsonhTokenView>,
    second: Seq<JsonhTokenView>,
)
    ensures
        shape_run(shape, first + second) == match shape_run(shape, first) {
            ShapeStep::Continue(between) => shape_run(between, second),
            other => other,
        },
    decreases first.len(),
{
    if first.len() == 0 {
        assert(first + second =~= second);
    } else {
        let all = first + second;
        assert(all[0] == first[0]);
        assert(all.subrange(1, all.len() as int) =~= first.subrange(1, first.len() as int)
            + second);
        match shape_accept(shape, first[0].json_type) {
            ShapeStep::Continue(next) => {
                lemma_shape_concat(next, first.subrange(1, first.len() as int), second);
            },
            _ => {},
        }
    }
}

/// What one token does to a shape.
pub proof fn lemma_shape_single(shape: Shape, token: JsonhTokenView)
    ensures
        shape_run(shape, seq![token]) == shape_accept(shape, token.json_type),
{
    let tokens = seq![token];
    assert(tokens.subrange(1, tokens.len() as int) =~= Seq::<JsonhTokenView>::empty());
    reveal_with_fuel(shape_run, 2);
}

/// Comments leave a shape as it is.
pub proof fn lemma_shape_comments(shape: Shape, tokens: Seq<JsonhTokenView>)
    requires
        forall|i: int|
            0 <= i < tokens.len() ==> (#[trigger] tokens[i]).json_type == JsonTokenType::Comment,
    ensures
        shape_run(shape, tokens) == ShapeStep::Continue(shape),
    decreases tokens.len(),
{
    if tokens.len() > 0 {
        let rest = tokens.subrange(1, tokens.len() as int);
        assert(tokens[0].json_type == JsonTokenType::Comment);
        assert forall|i: int| 0 <= i < rest.len() implies (#[trigger] rest[i]).json_type
            == JsonTokenType::Comment by {
            assert(rest[i] == tokens[i + 1]);
        }
        lemma_shape_comments(shape, rest);
    }
}

/// The comments in the input leave a shape as it is.
pub proof fn lemma_comments_shape(s: Seq<char>, pos: int, depth: int, v2: bool, shape: Shape)
    requires
        0 <= pos <= s.len(),
    ensures
        shape_run(shape, spec_read_comments_and_whitespace(s, pos, depth, v2).tokens)
            == ShapeStep::Continue(shape),
{
    lemma_read_comments_and_whitespace(s, pos, depth, v2);
    lemma_shape_comments(shape, spec_read_comments_and_whitespace(s, pos, depth, v2).tokens);
}

/// After the stream of a property name that was read, the name waits for its
/// value; one that failed leaves the shape as it is.
pub proof fn lemma_property_name_shape(s: Seq<char>, pos: int, depth: int, v2: bool, shape: Shape)
    requires
        0 <= pos <= s.len(),
    ensures
        spec_read_property_name(s, pos, depth, v2).error is None ==> shape_run(
            shape,
            spec_read_property_name(s, pos, depth, v2).tokens,
        ) == ShapeStep::Continue(Shape { open: shape.open, named: true }),
        spec_read_property_name(s, pos, depth, v2).error is Some ==> shape_run(
            shape,
            spec_read_property_name(s, pos, depth, v2).tokens,
        ) == ShapeStep::Continue(shape),
{
    let string = spec_read_string(s, pos, v2);
    lemma_read_string(s, pos, v2);
    if string.result is Ok {
        let lead = spec_read_comments_and_whitespace(s, string.pos, depth, v2);
        lemma_comments_shape(s, string.pos, depth, v2, shape);
        let last = property_name(string.result->Ok_0.value);
        lemma_shape_single(shape, last);
        lemma_shape_concat(shape, lead.tokens, seq![last]);
        lemma_shape_concat(shape, lead.tokens, Seq::empty());
    }
}

/// The stream of an element gives a builder the value that it has a place
/// for.
pub proof fn lemma_element_shape(
    s: Seq<char>,
    pos: int,
    depth: int,
    options: JsonhReaderOptions,
    shape: Shape,
)
    requires
        0 <= pos <= s.len(),
        takes_value(shape),
    ensures
        leads_to(spec_read_element(s, pos, depth, options), shape, value_done(shape)),
    decreases s.len() - pos, 7nat,
{
    let lead = spec_read_comments_and_whitespace(s, pos, depth, options.v2());
    lemma_read_comments_and_whitespace(s, pos, depth, options.v2());
    lemma_comments_shape(s, pos, depth, options.v2(), shape);
    if lead.error is None {
        lemma_read_primitive_element(s, lead.pos, options.v2());
        if is_char_at(s, lead.pos, '{') {
            lemma_object_shape(s, lead.pos, depth, options, shape);
            lemma_shape_concat(
                shape,
                lead.tokens,
                spec_read_object(s, lead.pos, depth, options).tokens,
            );
        } else if is_char_at(s, lead.pos, '[') {
            lemma_array_shape(s, lead.pos, depth, options, shape);
            lemma_shape_concat(
                shape,
                lead.tokens,
                spec_read_array(s, lead.pos, depth, options).tokens,
            );
        } else if lead.pos >= s.len() {
            lemma_shape_concat(shape, lead.tokens, Seq::empty());
        } else {
            let primitive = spec_read_primitive_element(s, lead.pos, options.v2());
            lemma_primitive_kind(s, lead.pos, options.v2());
            match primitive.result {
                Err(_) => {
                    lemma_shape_concat(shape, lead.tokens, Seq::empty());
                },
                Ok(token) => {
                    lemma_braceless_object_or_end_of_primitive_shape(
                        s,
                        primitive.pos,
                        depth,
                        options,
                        token,
                        shape,
                    );
                    lemma_shape_concat(
                        shape,
                        lead.tokens,
                        spec_read_braceless_object_or_end_of_primitive(
                            s,
                            primitive.pos,
                            depth,
                            options,
                            token,
                        ).tokens,
                    );
                },
            }
        }
    }
}

/// The stream of an object gives a builder the value that it has a place for.
pub proof fn lemma_object_shape(
    s: Seq<char>,
    pos: int,
    depth: int,
    options: JsonhReaderOptions,
    shape: Shape,
)
    requires
        0 <= pos <= s.len(),
        takes_value(shape),
    ensures
        leads_to(spec_read_object(s, pos, depth, options), shape, value_done(shape)),
    decreases s.len() - pos, 6nat,
{
    if !is_char_at(s, pos, '{') {
        lemma_braceless_object_shape(s, pos, depth, options, None, shape);
    } else {
        let inside = Shape { open: shape.open.push(true), named: false };
        lemma_shape_single(shape, start_object());
        assert(shape.open.len() == 0 ==> seq![true] =~= shape.open.push(true));
        assert(inside.open.drop_last() =~= shape.open);
        if may_enter(depth, options) {
            lemma_object_properties_shape(s, pos + 1, depth + 1, options, inside);
            lemma_shape_concat(
                shape,
                seq![start_object()],
                spec_read_object_properties(s, pos + 1, depth + 1, options).tokens,
            );
        }
    }
}

/// The stream of the properties of an object in braces fills and ends the
/// object in the builder.
pub proof fn lemma_object_properties_shape(
    s: Seq<char>,
    pos: int,
    depth: int,
    options: JsonhReaderOptions,
    shape: Shape,
)
    requires
        0 <= pos <= s.len(),
        in_object(shape),
    ensures
        leads_to(spec_read_object_properties(s, pos, depth, options), shape, container_done(shape)),
    decreases s.len() - pos, 4nat,
{
    let lead = spec_read_comments_and_whitespace(s, pos, depth, options.v2());
    lemma_read_comments_and_whitespace(s, pos, depth, options.v2());
    lemma_comments_shape(s, pos, depth, options.v2(), shape);
    if lead.error is None {
        if lead.pos >= s.len() || is_char_at(s, lead.pos, '}') {
            lemma_shape_single(shape, end_object());
            lemma_shape_concat(shape, lead.tokens, seq![end_object()]);
            lemma_shape_concat(shape, lead.tokens, Seq::empty());
        } else {
            let property = spec_read_property(s, lead.pos, depth, options, None);
            lemma_read_property(s, lead.pos, depth, options, None);
            lemma_property_shape(s, lead.pos, depth, options, None, shape);
            lemma_shape_concat(shape, lead.tokens, property.tokens);
            if property.error is None {
                let rest = spec_read_object_properties(s, property.pos, property.depth, options);
                lemma_object_properties_shape(s, property.pos, property.depth, options, shape);
                lemma_shape_concat(shape, lead.tokens + property.tokens, rest.tokens);
            }
        }
    }
}

/// The stream of a braceless object gives a builder the value that it has a
/// place for, where the tokens of a name that was read before are comments
/// and then the name.
pub proof fn lemma_braceless_object_shape(
    s: Seq<char>,
    pos: int,
    depth: int,
    options: JsonhReaderOptions,
    initial: Option<Seq<JsonhTokenView>>,
    shape: Shape,
)
    requires
        0 <= pos <= s.len(),
        takes_value(shape),
        initial matches Some(tokens) ==> forall|inside: Shape| #[trigger]
            shape_run(inside, tokens) == ShapeStep::Continue(
                Shape { open: inside.open, named: true },
            ),
    ensures
        leads_to(
            spec_read_braceless_object(s, pos, depth, options, initial),
            shape,
            value_done(shape),
        ),
    decreases
            s.len() - pos,
            (if initial is Some {
                10nat
            } else {
                5nat
            }),
{
    let inside = Shape { open: shape.open.push(true), named: false };
    lemma_shape_single(shape, start_object());
    assert(shape.open.len() == 0 ==> seq![true] =~= shape.open.push(true));
    assert(inside.open.drop_last() =~= shape.open);
    if may_enter(depth, options) {
        match initial {
            Some(tokens) => {
                let first = spec_read_property(s, pos, depth + 1, options, Some(tokens));
                lemma_read_property(s, pos, depth + 1, options, Some(tokens));
                lemma_property_shape(s, pos, depth + 1, options, Some(tokens), inside);
                lemma_shape_concat(shape, seq![start_object()], first.tokens);
                if first.error is None {
                    let rest = spec_read_braceless_properties(
                        s,
                        first.pos,
                        first.depth,
                        options,
                    );
                    lemma_braceless_properties_shape(s, first.pos, first.depth, options, inside);
                    lemma_shape_concat(shape, seq![start_object()] + first.tokens, rest.tokens);
                }
            },
            None => {
                lemma_braceless_properties_shape(s, pos, depth + 1, options, inside);
                lemma_shape_concat(
                    shape,
                    seq![start_object()],
                    spec_read_braceless_properties(s, pos, depth + 1, options).tokens,
                );
            },
        }
    }
}

/// The stream of the properties of a braceless object fills and ends the
/// object in the builder.
pub proof fn lemma_braceless_properties_shape(
    s: Seq<char>,
    pos: int,
    depth: int,
    options: JsonhReaderOptions,
    shape: Shape,
)
    requires
        0 <= pos <= s.len(),
        in_object(shape),
    ensures
        leads_to(
            spec_read_braceless_properties(s, pos, depth, options),
            shape,
            container_done(shape),
        ),
    decreases s.len() - pos, 4nat,
{
    let lead = spec_read_comments_and_whitespace(s, pos, depth, options.v2());
    lemma_read_comments_and_whitespace(s, pos, depth, options.v2());
    lemma_comments_shape(s, pos, depth, options.v2(), shape);
    if lead.error is None {
        if lead.pos >= s.len() {
            lemma_shape_single(shape, end_object());
            lemma_shape_concat(shape, lead.tokens, seq![end_object()]);
        } else {
            let property = spec_read_property(s, lead.pos, depth, options, None);
            lemma_read_property(s, lead.pos, depth, options, None);
            lemma_property_shape(s, lead.pos, depth, options, None, shape);
            lemma_shape_concat(shape, lead.tokens, property.tokens);
            if property.error is None {
                let rest = spec_read_braceless_properties(
                    s,
                    property.pos,
                    property.depth,
                    options,
                );
                lemma_braceless_properties_shape(s, property.pos, property.depth, options, shape);
                lemma_shape_concat(shape, lead.tokens + property.tokens, rest.tokens);
            }
        }
    }
}

/// The stream of what follows a primitive element gives a builder the value
/// that it has a place for.
pub proof fn lemma_braceless_object_or_end_of_primitive_shape(
    s: Seq<char>,
    pos: int,
    depth: int,
    options: JsonhReaderOptions,
    primitive: JsonhTokenView,
    shape: Shape,
)
    requires
        0 <= pos <= s.len(),
        takes_value(shape),
        primitive.json_type.is_primitive(),
    ensures
        leads_to(
            spec_read_braceless_object_or_end_of_primitive(s, pos, depth, options, primitive),
            shape,
            value_done(shape),
        ),
    decreases s.len() - pos, 11nat,
{
    let lead = spec_read_comments_and_whitespace(s, pos, depth, options.v2());
    lemma_read_comments_and_whitespace(s, pos, depth, options.v2());
    if lead.error is None {
        if is_char_at(s, lead.pos, ':') {
            let last = property_name(primitive.value);
            let initial = lead.tokens.push(last);
            assert(initial =~= lead.tokens + seq![last]);
            assert forall|inside: Shape| #[trigger]
                shape_run(inside, initial) == ShapeStep::Continue(
                    Shape { open: inside.open, named: true },
                ) by {
                lemma_comments_shape(s, pos, depth, options.v2(), inside);
                lemma_shape_single(inside, last);
                lemma_shape_concat(inside, lead.tokens, seq![last]);
            }
            lemma_braceless_object_shape(s, lead.pos + 1, depth, options, Some(initial), shape);
        } else {
            lemma_shape_single(shape, primitive);
            lemma_shape_concat(shape, seq![primitive], lead.tokens);
            if shape.open.len() > 0 {
                lemma_comments_shape(
                    s,
                    pos,
                    depth,
                    options.v2(),
                    Shape { open: shape.open, named: false },
                );
            }
        }
    }
}

/// The stream of a property gives the object in the builder a property.
pub proof fn lemma_property_shape(
    s: Seq<char>,
    pos: int,
    depth: int,
    options: JsonhReaderOptions,
    initial: Option<Seq<JsonhTokenView>>,
    shape: Shape,
)
    requires
        0 <= pos <= s.len(),
        in_object(shape),
        initial matches Some(tokens) ==> forall|inside: Shape| #[trigger]
            shape_run(inside, tokens) == ShapeStep::Continue(
                Shape { open: inside.open, named: true },
            ),
    ensures
        leads_to(
            spec_read_property(s, pos, depth, options, initial),
            shape,
            ShapeStep::Continue(shape),
        ),
    decreases
            s.len() - pos,
            (if initial is Some {
                9nat
            } else {
                3nat
            }),
{
    let head = match initial {
        Some(tokens) => TokenStream { tokens, error: None, pos, depth },
        None => spec_read_property_name(s, pos, depth, options.v2()),
    };
    let named = Shape { open: shape.open, named: true };
    lemma_read_property_name(s, pos, depth, options.v2());
    lemma_property_name_shape(s, pos, depth, options.v2(), shape);
    if head.error is None {
        assert(shape_run(shape, head.tokens) == ShapeStep::Continue(named));
        let lead = spec_read_comments_and_whitespace(s, head.pos, depth, options.v2());
        lemma_read_comments_and_whitespace(s, head.pos, depth, options.v2());
        lemma_comments_shape(s, head.pos, depth, options.v2(), named);
        lemma_shape_concat(shape, head.tokens, lead.tokens);
        if lead.error is None {
            lemma_item_shape(s, lead.pos, depth, options, named);
            lemma_shape_concat(
                shape,
                head.tokens + lead.tokens,
                spec_read_item(s, lead.pos, depth, options).tokens,
            );
        }
    }
}

/// The stream of an array gives a builder the value that it has a place for.
pub proof fn lemma_array_shape(
    s: Seq<char>,
    pos: int,
    depth: int,
    options: JsonhReaderOptions,
    shape: Shape,
)
    requires
        0 <= pos <= s.len(),
        takes_value(shape),
    ensures
        leads_to(spec_read_array(s, pos, depth, options), shape, value_done(shape)),
    decreases s.len() - pos, 6nat,
{
    if is_char_at(s, pos, '[') {
        let inside = Shape { open: shape.open.push(false), named: false };
        lemma_shape_single(shape, start_array());
        assert(shape.open.len() == 0 ==> seq![false] =~= shape.open.push(false));
        assert(inside.open.drop_last() =~= shape.open);
        if may_enter(depth, options) {
            lemma_array_items_shape(s, pos + 1, depth + 1, options, inside);
            lemma_shape_concat(
                shape,
                seq![start_array()],
                spec_read_array_items(s, pos + 1, depth + 1, options).tokens,
            );
        }
    }
}

/// The stream of the items of an array fills and ends the array in the
/// builder.
pub proof fn lemma_array_items_shape(
    s: Seq<char>,
    pos: int,
    depth: int,
    options: JsonhReaderOptions,
    shape: Shape,
)
    requires
        0 <= pos <= s.len(),
        in_array(shape),
    ensures
        leads_to(spec_read_array_items(s, pos, depth, options), shape, container_done(shape)),
    decreases s.len() - pos, 9nat,
{
    let lead = spec_read_comments_and_whitespace(s, pos, depth, options.v2());
    lemma_read_comments_and_whitespace(s, pos, depth, options.v2());
    lemma_comments_shape(s, pos, depth, options.v2(), shape);
    if lead.error is None {
        if lead.pos >= s.len() || is_char_at(s, lead.pos, ']') {
            lemma_shape_single(shape, end_array());
            lemma_shape_concat(shape, lead.tokens, seq![end_array()]);
            lemma_shape_concat(shape, lead.tokens, Seq::empty());
        } else {
            let item = spec_read_item(s, lead.pos, depth, options);
            lemma_read_item(s, lead.pos, depth, options);
            lemma_item_shape(s, lead.pos, depth, options, shape);
            lemma_shape_concat(shape, lead.tokens, item.tokens);
            if item.error is None {
                let rest = spec_read_array_items(s, item.pos, item.depth, options);
                lemma_array_items_shape(s, item.pos, item.depth, options, shape);
                lemma_shape_concat(shape, lead.tokens + item.tokens, rest.tokens);
            }
        }
    }
}

/// The stream of an item gives the object or array in the builder the value
/// that it has a place for.
pub proof fn lemma_item_shape(
    s: Seq<char>,
    pos: int,
    depth: int,
    options: JsonhReaderOptions,
    shape: Shape,
)
    requires
        0 <= pos <= s.len(),
        takes_value(shape),
        shape.open.len() > 0,
    ensures
        leads_to(spec_read_item(s, pos, depth, options), shape, value_done(shape)),
    decreases s.len() - pos, 8nat,
{
    let element = spec_read_element(s, pos, depth, options);
    lemma_read_element(s, pos, depth, options);
    lemma_element_shape(s, pos, depth, options, shape);
    if element.error is None {
        let trail = spec_read_comments_and_whitespace(
            s,
            element.pos,
            element.depth,
            options.v2(),
        );
        lemma_read_comments_and_whitespace(s, element.pos, element.depth, options.v2());
        lemma_shape_concat(shape, element.tokens, trail.tokens);
        if shape.open.len() > 0 {
            lemma_comments_shape(
                s,
                element.pos,
                element.depth,
                options.v2(),
                Shape { open: shape.open, named: false },
            );
        }
    }
}

/// Whether each open object or array of the builder `builder` is an object
/// or array, and has a name exactly where an object is around it.
pub open spec fn builder_wf(builder: JsonhValueBuilderView) -> bool {
    forall|i: int|
        0 <= i < builder.stack.len() ==> {
            &&& ((#[trigger] builder.stack[i]).value is Array || builder.stack[i].value is Object)
            &&& i > 0 ==> (builder.stack[i - 1].value is Object) == (builder.stack[i].name
                is Some)
        }
}

/// The shape of the builder `builder`.
pub open spec fn shape_of(builder: JsonhValueBuilderView) -> Shape {
    Shape {
        open: Seq::new(builder.stack.len(), |i: int| builder.stack[i].value is Object),
        named: builder.pending is Some,
    }
}

/// What a token does to a builder, it does to the builder's shape; and a
/// token that has no place is refused as such.
pub proof fn lemma_accept_shape(builder: JsonhValueBuilderView, token: JsonhTokenView)
    requires
        builder_wf(builder),
    ensures
        match builder.accept(token) {
            JsonhBuildStep::Continue(next) => builder_wf(next) && shape_accept(
                shape_of(builder),
                token.json_type,
            ) == ShapeStep::Continue(shape_of(next)),
            JsonhBuildStep::Finished(_) => shape_accept(shape_of(builder), token.json_type)
                == ShapeStep::Finished,
            JsonhBuildStep::Failed(e) => e == JsonhError::TokenTypeNotImplemented && shape_accept(
                shape_of(builder),
                token.json_type,
            ) == ShapeStep::Failed,
        },
{
    let shape = shape_of(builder);
    let kind = token.json_type;
    let stack = builder.stack;
    if stack.len() > 0 {
        assert(stack.last() == stack[stack.len() - 1]);
        assert(shape.open.last() == (stack.last().value is Object));
    }
    match builder.accept(token) {
        JsonhBuildStep::Continue(next) => {
            if kind.is_primitive() {
                let top = stack.last();
                assert(next.stack.len() == stack.len());
                assert forall|i: int| 0 <= i < next.stack.len() implies {
                    &&& ((#[trigger] next.stack[i]).value is Array || next.stack[i].value
                        is Object)
                    &&& (next.stack[i].value is Object) == (stack[i].value is Object)
                    &&& next.stack[i].name == stack[i].name
                } by {
                    if i < stack.len() - 1 {
                        assert(next.stack[i] == stack[i]);
                    }
                }
                assert(shape_of(next).open =~= shape.open);
            } else if kind.is_start() {
                if stack.len() == 0 {
                    assert(shape_of(next).open =~= seq![kind == JsonTokenType::StartObject]);
                } else {
                    assert forall|i: int| 0 <= i < next.stack.len() implies {
                        &&& ((#[trigger] next.stack[i]).value is Array || next.stack[i].value
                            is Object)
                        &&& i > 0 ==> (next.stack[i - 1].value is Object) == (next.stack[i].name
                            is Some)
                    } by {
                        if i < stack.len() {
                            assert(next.stack[i] == stack[i]);
                        }
                        if 0 < i {
                            assert(next.stack[i - 1] == stack[i - 1]);
                        }
                    }
                    assert(shape_of(next).open =~= shape.open.push(
                        kind == JsonTokenType::StartObject,
                    ));
                }
            } else if kind.is_end() {
                let rest = stack.drop_last();
                assert(rest.last() == stack[stack.len() - 2]);
                assert(next.stack.len() == stack.len() - 1);
                assert forall|i: int| 0 <= i < next.stack.len() implies {
                    &&& ((#[trigger] next.stack[i]).value is Array || next.stack[i].value
                        is Object)
                    &&& (next.stack[i].value is Object) == (stack[i].value is Object)
                    &&& next.stack[i].name == stack[i].name
                } by {
                    if i < stack.len() - 2 {
                        assert(next.stack[i] == stack[i]);
                    }
                }
                assert(shape_of(next).open =~= shape.open.drop_last());
            } else {
                assert(shape_of(next).open =~= shape.open);
            }
        },
        JsonhBuildStep::Finished(_) => {},
        JsonhBuildStep::Failed(_) => {
            if kind.is_end() && stack.len() >= 2 {
                let rest = stack.drop_last();
                assert(rest.last() == stack[stack.len() - 2]);
                assert(stack.last() == stack[stack.len() - 1]);
                assert(attachable(rest.last().value, stack.last().name));
            }
        },
    }
}

/// What the tokens from `index` on do to a builder, they do to its shape: the
/// builder gives a value where they complete the root, refuses a token where
/// one has no place, and else gives the error that ended the stream, or says
/// that a token is missing.
pub proof fn lemma_build_shape(
    builder: JsonhValueBuilderView,
    tokens: Seq<JsonhTokenView>,
    index: int,
    error: Option<JsonhError>,
)
    requires
        builder_wf(builder),
        0 <= index <= tokens.len(),
    ensures
        match shape_run(shape_of(builder), tokens.subrange(index, tokens.len() as int)) {
            ShapeStep::Finished => builder.build(tokens, index, error) is Ok,
            ShapeStep::Failed => builder.build(tokens, index, error) == Err::<
                JsonhValueView,
                JsonhError,
            >(JsonhError::TokenTypeNotImplemented),
            ShapeStep::Continue(_) => builder.build(tokens, index, error) == Err::<
                JsonhValueView,
                JsonhError,
            >(
                match error {
                    Some(e) => e,
                    None => JsonhError::ExpectedToken,
                },
            ),
        },
    decreases tokens.len() - index,
{
    let rest = tokens.subrange(index, tokens.len() as int);
    if index < tokens.len() {
        assert(rest[0] == tokens[index]);
        assert(rest.subrange(1, rest.len() as int) =~= tokens.subrange(
            index + 1,
            tokens.len() as int,
        ));
        lemma_accept_shape(builder, tokens[index]);
        match builder.accept(tokens[index]) {
            JsonhBuildStep::Continue(next) => {
                lemma_build_shape(next, tokens, index + 1, error);
            },
            _ => {},
        }
    }
}

/// The builder has a place for every token of the stream of an element: the
/// tokens of an element that was read build a value, and those of an element
/// that failed give the error of the stream.
pub proof fn lemma_element_builds(s: Seq<char>, pos: int, depth: int, options: JsonhReaderOptions)
    requires
        0 <= pos <= s.len(),
    ensures
        ({
            let stream = spec_read_element(s, pos, depth, options);
            match stream.error {
                None => spec_build_value(stream.tokens, stream.error) is Ok,
                Some(e) => spec_build_value(stream.tokens, stream.error) == Err::<
                    JsonhValueView,
                    JsonhError,
                >(e),
            }
        }),
{
    let stream = spec_read_element(s, pos, depth, options);
    let empty = JsonhValueBuilderView::empty();
    let shape = Shape { open: Seq::empty(), named: false };
    assert(shape_of(empty).open =~= shape.open);
    lemma_element_shape(s, pos, depth, options, shape);
    assert(stream.tokens.subrange(0, stream.tokens.len() as int) =~= stream.tokens);
    lemma_build_shape(empty, stream.tokens, 0, stream.error);
}

} // verus!
