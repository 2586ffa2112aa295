//! Building a value from the tokens of an element, one token at a time.
use vstd::prelude::*;
use crate::json_token_type::JsonTokenType;
use crate::jsonh_error::JsonhError;
use crate::jsonh_token::{tokens_view, JsonhToken, JsonhTokenView};
use crate::jsonh_value::{
    attachable,
    attached,
    items_view,
    lemma_array_view,
    lemma_object_view,
    option_view,
    properties_view,
    JsonhProperty,
    JsonhValue,
    JsonhValueView,
};

verus! {

/// The mathematical value of a `JsonhBuilderFrame`.
pub struct JsonhBuilderFrameView {
    pub value: JsonhValueView,
    pub name: Option<Seq<char>>,
}

/// The mathematical value of a `JsonhValueBuilder`.
pub struct JsonhValueBuilderView {
    pub stack: Seq<JsonhBuilderFrameView>,
    pub pending: Option<Seq<char>>,
}

/// What a token does to a builder: building goes on, the root value is
/// complete, or the token has no place.
pub enum JsonhBuildStep {
    Continue(JsonhValueBuilderView),
    Finished(JsonhValueView),
    Failed(JsonhError),
}

/// An object or array that is being built, and the name under which it goes
/// into the object around it, if an object is around it.
#[derive(Debug)]
pub struct JsonhBuilderFrame {
    pub value: JsonhValue,
    pub name: Option<String>,
}

/// Builds a value from the tokens of an element, one token at a time. It
/// holds the objects and arrays that are open, the outermost first, and the
/// property name that waits for its value.
#[derive(Debug)]
pub struct JsonhValueBuilder {
    pub stack: Vec<JsonhBuilderFrame>,
    pub pending: Option<String>,
}

impl View for JsonhBuilderFrame {
    type V = JsonhBuilderFrameView;

    open spec fn view(&self) -> JsonhBuilderFrameView {
        JsonhBuilderFrameView { value: self.value@, name: option_view(self.name) }
    }
}

impl View for JsonhValueBuilder {
    type V = JsonhValueBuilderView;

    open spec fn view(&self) -> JsonhValueBuilderView {
        JsonhValueBuilderView {
            stack: self.stack@.map_values(|f: JsonhBuilderFrame| f@),
            pending: option_view(self.pending),
        }
    }
}

impl JsonhValueBuilderView {
    /// The builder before the first token.
    pub open spec fn empty() -> JsonhValueBuilderView {
        JsonhValueBuilderView { stack: Seq::empty(), pending: None }
    }

    /// A complete value arrives: it is the root where nothing is open, and
    /// else goes into the innermost open object or array, into an object
    /// under the name that waits.
    pub open spec fn submit(self, value: JsonhValueView) -> JsonhBuildStep {
        if self.stack.len() == 0 {
            JsonhBuildStep::Finished(value)
        } else {
            let top = self.stack.last();
            match attached(top.value, self.pending, value) {
                Some(container) => JsonhBuildStep::Continue(
                    JsonhValueBuilderView {
                        stack: self.stack.drop_last().push(
                            JsonhBuilderFrameView { value: container, name: top.name },
                        ),
                        pending: None,
                    },
                ),
                None => JsonhBuildStep::Failed(JsonhError::TokenTypeNotImplemented),
            }
        }
    }

    /// An object or array opens, with `container` as its empty value: it
    /// takes the name that waits, which must fit what is around it.
    pub open spec fn open(self, container: JsonhValueView) -> JsonhBuildStep {
        if self.stack.len() == 0 {
            JsonhBuildStep::Continue(
                JsonhValueBuilderView {
                    stack: seq![JsonhBuilderFrameView { value: container, name: None }],
                    pending: self.pending,
                },
            )
        } else if attachable(self.stack.last().value, self.pending) {
            JsonhBuildStep::Continue(
                JsonhValueBuilderView {
                    stack: self.stack.push(
                        JsonhBuilderFrameView { value: container, name: self.pending },
                    ),
                    pending: None,
                },
            )
        } else {
            JsonhBuildStep::Failed(JsonhError::TokenTypeNotImplemented)
        }
    }

    /// The innermost open object or array ends: it is the root where nothing
    /// else is open, and else goes into what is around it.
    pub open spec fn close(self) -> JsonhBuildStep {
        if self.stack.len() == 0 {
            JsonhBuildStep::Failed(JsonhError::TokenTypeNotImplemented)
        } else if self.stack.len() == 1 {
            JsonhBuildStep::Finished(self.stack.last().value)
        } else {
            let done = self.stack.last();
            let rest = self.stack.drop_last();
            let top = rest.last();
            match attached(top.value, done.name, done.value) {
                Some(container) => JsonhBuildStep::Continue(
                    JsonhValueBuilderView {
                        stack: rest.drop_last().push(
                            JsonhBuilderFrameView { value: container, name: top.name },
                        ),
                        pending: self.pending,
                    },
                ),
                None => JsonhBuildStep::Failed(JsonhError::TokenTypeNotImplemented),
            }
        }
    }

    /// What the token `token` does to the builder. A named literal, a string
    /// or a number is a complete value; a number keeps its literal. A property
    /// name waits for the value that follows. Comments are ignored.
    pub open spec fn accept(self, token: JsonhTokenView) -> JsonhBuildStep {
        match token.json_type {
            JsonTokenType::Null => self.submit(JsonhValueView::Null),
            JsonTokenType::True => self.submit(JsonhValueView::Bool(true)),
            JsonTokenType::False => self.submit(JsonhValueView::Bool(false)),
            JsonTokenType::String => self.submit(JsonhValueView::String(token.value)),
            JsonTokenType::Number => self.submit(JsonhValueView::Number(token.value)),
            JsonTokenType::StartObject => self.open(JsonhValueView::Object(Seq::empty())),
            JsonTokenType::StartArray => self.open(JsonhValueView::Array(Seq::empty())),
            JsonTokenType::EndObject => self.close(),
            JsonTokenType::EndArray => self.close(),
            JsonTokenType::PropertyName => JsonhBuildStep::Continue(
                JsonhValueBuilderView { pending: Some(token.value), ..self },
            ),
            JsonTokenType::Comment => JsonhBuildStep::Continue(self),
        }
    }

    /// The value that the tokens `tokens` from `index` on build, or why they
    /// build none. The first complete value is the result, whatever follows
    /// it. Tokens that run out give the error `error` that ended their
    /// stream, or say that a token is missing.
    pub open spec fn build(
        self,
        tokens: Seq<JsonhTokenView>,
        index: int,
        error: Option<JsonhError>,
    ) -> Result<JsonhValueView, JsonhError>
        decreases tokens.len() - index,
    {
        if 0 <= index < tokens.len() {
            match self.accept(tokens[index]) {
                JsonhBuildStep::Continue(next) => next.build(tokens, index + 1, error),
                JsonhBuildStep::Finished(value) => Ok(value),
                JsonhBuildStep::Failed(e) => Err(e),
            }
        } else {
            match error {
                Some(e) => Err(e),
                None => Err(JsonhError::ExpectedToken),
            }
        }
    }
}

/// The value that the stream of the tokens `tokens`, ended by `error` if it
/// failed, builds.
pub open spec fn spec_build_value(tokens: Seq<JsonhTokenView>, error: Option<JsonhError>) -> Result<
    JsonhValueView,
    JsonhError,
> {
    JsonhValueBuilderView::empty().build(tokens, 0, error)
}

impl JsonhValueBuilder {
    /// Constructs a builder that has seen no token.
    pub fn new() -> (r: Self)
        ensures
            r@ == JsonhValueBuilderView::empty(),
    {
        let r = JsonhValueBuilder { stack: Vec::new(), pending: None };
        assert(r@.stack =~= Seq::empty());
        r
    }

    /// Takes a complete value.
    fn submit(&mut self, value: JsonhValue) -> (r: Result<Option<JsonhValue>, JsonhError>)
        ensures
            match old(self)@.submit(value@) {
                JsonhBuildStep::Continue(next) => r == Ok::<Option<JsonhValue>, JsonhError>(None)
                    && final(self)@ == next,
                JsonhBuildStep::Finished(root) => r matches Ok(Some(built)) && built@ == root,
                JsonhBuildStep::Failed(e) => r == Err::<Option<JsonhValue>, JsonhError>(e),
            },
    {
        let ghost before = self@;
        match self.stack.pop() {
            None => Ok(Some(value)),
            Some(top) => {
                let mut top = top;
                assert(self@.stack =~= before.stack.drop_last());
                assert(top@ == before.stack.last());
                let name = self.pending.take();
                if top.value.attach(name, value) {
                    let ghost rest = self@.stack;
                    self.stack.push(top);
                    assert(self@.stack =~= rest.push(top@));
                    Ok(None)
                } else {
                    Err(JsonhError::TokenTypeNotImplemented)
                }
            },
        }
    }

    /// Opens an object or array, with `container` as its empty value.
    fn open(&mut self, container: JsonhValue) -> (r: Result<Option<JsonhValue>, JsonhError>)
        ensures
            match old(self)@.open(container@) {
                JsonhBuildStep::Continue(next) => r == Ok::<Option<JsonhValue>, JsonhError>(None)
                    && final(self)@ == next,
                JsonhBuildStep::Finished(root) => r matches Ok(Some(built)) && built@ == root,
                JsonhBuildStep::Failed(e) => r == Err::<Option<JsonhValue>, JsonhError>(e),
            },
    {
        let ghost before = self@;
        if self.stack.len() == 0 {
            let frame = JsonhBuilderFrame { value: container, name: None };
            self.stack.push(frame);
            assert(self@.stack =~= seq![frame@]);
            return Ok(None);
        }
        let fits = {
            let top = &self.stack[self.stack.len() - 1];
            assert(top@ == before.stack.last());
            match &top.value {
                JsonhValue::Array(_) => self.pending.is_none(),
                JsonhValue::Object(_) => self.pending.is_some(),
                _ => false,
            }
        };
        if !fits {
            return Err(JsonhError::TokenTypeNotImplemented);
        }
        let frame = JsonhBuilderFrame { value: container, name: self.pending.take() };
        self.stack.push(frame);
        assert(self@.stack =~= before.stack.push(frame@));
        Ok(None)
    }

    /// Closes the innermost open object or array.
    fn close(&mut self) -> (r: Result<Option<JsonhValue>, JsonhError>)
        ensures
            match old(self)@.close() {
                JsonhBuildStep::Continue(next) => r == Ok::<Option<JsonhValue>, JsonhError>(None)
                    && final(self)@ == next,
                JsonhBuildStep::Finished(root) => r matches Ok(Some(built)) && built@ == root,
                JsonhBuildStep::Failed(e) => r == Err::<Option<JsonhValue>, JsonhError>(e),
            },
    {
        let ghost before = self@;
        let done = match self.stack.pop() {
            Some(done) => done,
            None => { return Err(JsonhError::TokenTypeNotImplemented); },
        };
        assert(self@.stack =~= before.stack.drop_last());
        assert(done@ == before.stack.last());
        let ghost rest = self@;
        match self.stack.pop() {
            None => Ok(Some(done.value)),
            Some(top) => {
                let mut top = top;
                assert(self@.stack =~= rest.stack.drop_last());
                assert(top@ == rest.stack.last());
                if top.value.attach(done.name, done.value) {
                    let ghost below = self@.stack;
                    self.stack.push(top);
                    assert(self@.stack =~= below.push(top@));
                    Ok(None)
                } else {
                    Err(JsonhError::TokenTypeNotImplemented)
                }
            },
        }
    }

    /// Takes the next token of the element. Returns the root value where the
    /// token completes it, `None` where building goes on, and an error where
    /// the token has no place; the builder is then of no more use.
    pub fn accept(&mut self, token: &JsonhToken) -> (r: Result<Option<JsonhValue>, JsonhError>)
        ensures
            match old(self)@.accept(token@) {
                JsonhBuildStep::Continue(next) => r == Ok::<Option<JsonhValue>, JsonhError>(None)
                    && final(self)@ == next,
                JsonhBuildStep::Finished(root) => r matches Ok(Some(built)) && built@ == root,
                JsonhBuildStep::Failed(e) => r == Err::<Option<JsonhValue>, JsonhError>(e),
            },
    {
        match token.json_type {
            JsonTokenType::Null => self.submit(JsonhValue::Null),
            JsonTokenType::True => self.submit(JsonhValue::Bool(true)),
            JsonTokenType::False => self.submit(JsonhValue::Bool(false)),
            JsonTokenType::String => self.submit(JsonhValue::String(token.value.clone())),
            JsonTokenType::Number => self.submit(JsonhValue::Number(token.value.clone())),
            JsonTokenType::StartObject => {
                let properties: Vec<JsonhProperty> = Vec::new();
                proof {
                    lemma_object_view(properties);
                    assert(properties_view(properties@) =~= Seq::empty());
                }
                self.open(JsonhValue::Object(properties))
            },
            JsonTokenType::StartArray => {
                let items: Vec<JsonhValue> = Vec::new();
                proof {
                    lemma_array_view(items);
                    assert(items_view(items@) =~= Seq::empty());
                }
                self.open(JsonhValue::Array(items))
            },
            JsonTokenType::EndObject => self.close(),
            JsonTokenType::EndArray => self.close(),
            JsonTokenType::PropertyName => {
                self.pending = Some(token.value.clone());
                Ok(None)
            },
            JsonTokenType::Comment => Ok(None),
        }
    }
}

/// Builds the value of the element whose stream holds the tokens `tokens`
/// and ended as `end` says.
pub fn build_value(tokens: &Vec<JsonhToken>, end: Result<(), JsonhError>) -> (r: Result<
    JsonhValue,
    JsonhError,
>)
    ensures
        match spec_build_value(
            tokens_view(tokens@),
            match end {
                Ok(_) => None,
                Err(e) => Some(e),
            },
        ) {
            Ok(value) => r matches Ok(built) && built@ == value,
            Err(e) => r == Err::<JsonhValue, JsonhError>(e),
        },
{
    let ghost error = match end {
        Ok(_) => None,
        Err(e) => Some(e),
    };
    let ghost views = tokens_view(tokens@);
    let mut builder = JsonhValueBuilder::new();
    let mut index: usize = 0;
    while index < tokens.len()
        invariant
            index <= tokens.len(),
            views == tokens_view(tokens@),
            builder@.build(views, index as int, error) == spec_build_value(views, error),
        decreases tokens.len() - index,
    {
        match builder.accept(&tokens[index]) {
            Ok(Some(value)) => { return Ok(value); },
            Ok(None) => {},
            Err(err) => { return Err(err); },
        }
        index += 1;
    }
    match end {
        Ok(_) => Err(JsonhError::ExpectedToken),
        Err(err) => Err(err),
    }
}

/// `tokens` without the comments among them.
pub open spec fn without_comments(tokens: Seq<JsonhTokenView>) -> Seq<JsonhTokenView>
    decreases tokens.len(),
{
    if tokens.len() == 0 {
        tokens
    } else if tokens[0].json_type == JsonTokenType::Comment {
        without_comments(tokens.subrange(1, tokens.len() as int))
    } else {
        seq![tokens[0]] + without_comments(tokens.subrange(1, tokens.len() as int))
    }
}

/// What a builder builds from the tokens after the first `skipped` of a
/// sequence is what it builds from the sequence without these.
pub proof fn lemma_build_shift(
    builder: JsonhValueBuilderView,
    skipped: Seq<JsonhTokenView>,
    tokens: Seq<JsonhTokenView>,
    index: int,
    error: Option<JsonhError>,
)
    requires
        0 <= index <= tokens.len(),
    ensures
        builder.build(skipped + tokens, skipped.len() + index, error) == builder.build(
            tokens,
            index,
            error,
        ),
    decreases tokens.len() - index,
{
    let all = skipped + tokens;
    if index < tokens.len() {
        assert(all[skipped.len() + index] == tokens[index]);
        match builder.accept(tokens[index]) {
            JsonhBuildStep::Continue(next) => {
                lemma_build_shift(next, skipped, tokens, index + 1, error);
            },
            _ => {},
        }
    }
}

/// Comments do not count: the value that tokens build is the value that the
/// tokens without the comments among them build. So a comment more or less
/// between the tokens of an element leaves its value as it is.
pub proof fn lemma_build_ignores_comments(
    builder: JsonhValueBuilderView,
    tokens: Seq<JsonhTokenView>,
    error: Option<JsonhError>,
)
    ensures
        builder.build(tokens, 0, error) == builder.build(without_comments(tokens), 0, error),
    decreases tokens.len(),
{
    if tokens.len() > 0 {
        let rest = tokens.subrange(1, tokens.len() as int);
        assert(tokens =~= seq![tokens[0]] + rest);
        if tokens[0].json_type == JsonTokenType::Comment {
            lemma_build_shift(builder, seq![tokens[0]], rest, 0, error);
            lemma_build_ignores_comments(builder, rest, error);
        } else {
            let kept = without_comments(rest);
            match builder.accept(tokens[0]) {
                JsonhBuildStep::Continue(next) => {
                    lemma_build_shift(next, seq![tokens[0]], rest, 0, error);
                    lemma_build_shift(next, seq![tokens[0]], kept, 0, error);
                    lemma_build_ignores_comments(next, rest, error);
                },
                _ => {},
            }
        }
    }
}

/// The value of an element does not depend on its comments: the stream of
/// tokens builds what it builds without the comment tokens.
pub proof fn lemma_value_ignores_comments(tokens: Seq<JsonhTokenView>, error: Option<JsonhError>)
    ensures
        spec_build_value(tokens, error) == spec_build_value(without_comments(tokens), error),
{
    lemma_build_ignores_comments(JsonhValueBuilderView::empty(), tokens, error);
}

} // verus!
