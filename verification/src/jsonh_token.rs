//! Tokens, and streams of tokens as the reader's model of its output.
use vstd::prelude::*;
use crate::json_token_type::JsonTokenType;
use crate::jsonh_error::JsonhError;

verus! {

/// The mathematical value of a `JsonhToken`: its kind and the characters of
/// its value.
pub struct JsonhTokenView {
    pub json_type: JsonTokenType,
    pub value: Seq<char>,
}

/// A single JSONH token with a `JsonTokenType`.
#[derive(Debug, PartialEq, Eq)]
pub struct JsonhToken {
    /// The type of the token.
    pub json_type: JsonTokenType,
    /// The value of the token, or an empty string.
    pub value: String,
}

impl View for JsonhToken {
    type V = JsonhTokenView;

    open spec fn view(&self) -> JsonhTokenView {
        JsonhTokenView { json_type: self.json_type, value: self.value@ }
    }
}

impl Clone for JsonhToken {
    fn clone(&self) -> (r: Self)
        ensures
            r@ == self@,
    {
        JsonhToken { json_type: self.json_type, value: self.value.clone() }
    }
}

impl JsonhTokenView {
    /// The token of kind `json_type` without a value.
    pub open spec fn empty(json_type: JsonTokenType) -> JsonhTokenView {
        JsonhTokenView { json_type, value: Seq::empty() }
    }
}

impl JsonhToken {
    /// Constructs a single JSONH token.
    pub fn new(json_type: JsonTokenType, value: String) -> (r: Self)
        ensures
            r.json_type == json_type,
            r.value == value,
            r@ == (JsonhTokenView { json_type, value: value@ }),
    {
        JsonhToken { json_type, value }
    }

    /// Constructs a single JSONH token with an empty value.
    pub fn new_empty(json_type: JsonTokenType) -> (r: Self)
        ensures
            r@ == JsonhTokenView::empty(json_type),
    {
        Self::new(json_type, String::new())
    }

    /// Returns whether the JSONH token is a teapot.
    ///
    /// Since JSONH tokens cannot currently be teapots, this always returns `false`.
    pub fn is_a_teapot(&self) -> (r: bool)
        ensures
            !r,
    {
        false
    }
}

/// The mathematical values of a sequence of tokens, in order.
pub open spec fn tokens_view(tokens: Seq<JsonhToken>) -> Seq<JsonhTokenView> {
    tokens.map_values(|t: JsonhToken| t@)
}

/// What reading a piece of the input gives as a stream: the tokens in the
/// order of the input, the error that ended the stream if one did, and the
/// position and nesting depth at which reading stopped.
pub struct TokenStream {
    pub tokens: Seq<JsonhTokenView>,
    pub error: Option<JsonhError>,
    pub pos: int,
    pub depth: int,
}

impl TokenStream {
    /// The stream without tokens that stops at `pos` and `depth`.
    pub open spec fn empty(pos: int, depth: int) -> TokenStream {
        TokenStream { tokens: Seq::empty(), error: None, pos, depth }
    }

    /// The stream of the one token `token` that stops at `pos` and `depth`.
    pub open spec fn single(token: JsonhTokenView, pos: int, depth: int) -> TokenStream {
        TokenStream { tokens: seq![token], error: None, pos, depth }
    }

    /// The stream that fails with `error` at `pos` and `depth` before any token.
    pub open spec fn fail(error: JsonhError, pos: int, depth: int) -> TokenStream {
        TokenStream { tokens: Seq::empty(), error: Some(error), pos, depth }
    }

    /// This stream followed by `next`, which was read from where this one
    /// stopped. A stream that failed has nothing after it.
    pub open spec fn followed_by(self, next: TokenStream) -> TokenStream {
        if self.error is Some {
            self
        } else {
            TokenStream { tokens: self.tokens + next.tokens, ..next }
        }
    }

    /// The tokens `tokens` followed by this stream.
    pub open spec fn after(self, tokens: Seq<JsonhTokenView>) -> TokenStream {
        TokenStream { tokens: tokens + self.tokens, ..self }
    }

    /// How reading ended: with the error, or well.
    pub open spec fn outcome(self) -> Result<(), JsonhError> {
        match self.error {
            Some(e) => Err(e),
            None => Ok(()),
        }
    }

    /// The stream as a sequence of results: each token, then the error if
    /// there is one.
    pub open spec fn results(self) -> Seq<Result<JsonhTokenView, JsonhError>> {
        let tokens = self.tokens.map_values(
            |t: JsonhTokenView| Ok::<JsonhTokenView, JsonhError>(t),
        );
        match self.error {
            Some(e) => tokens.push(Err(e)),
            None => tokens,
        }
    }
}

/// Appends `token` to `tokens`.
pub fn push_token(tokens: &mut Vec<JsonhToken>, token: JsonhToken)
    ensures
        tokens_view(final(tokens)@) == tokens_view(old(tokens)@).push(token@),
        tokens_view(final(tokens)@) == tokens_view(old(tokens)@) + seq![token@],
{
    tokens.push(token);
    assert(tokens_view(tokens@) =~= tokens_view(old(tokens)@).push(token@));
    assert(tokens_view(tokens@) =~= tokens_view(old(tokens)@) + seq![token@]);
}

/// Moves the tokens of `more` to the end of `tokens`.
pub fn append_tokens(tokens: &mut Vec<JsonhToken>, more: Vec<JsonhToken>)
    ensures
        tokens_view(final(tokens)@) == tokens_view(old(tokens)@) + tokens_view(more@),
{
    let mut rest = more;
    tokens.append(&mut rest);
    assert(tokens_view(tokens@) =~= tokens_view(old(tokens)@) + tokens_view(more@));
}

/// A stream after tokens, and those after more tokens, is the stream after
/// all of them.
pub proof fn lemma_after_after(
    stream: TokenStream,
    inner: Seq<JsonhTokenView>,
    outer: Seq<JsonhTokenView>,
)
    ensures
        stream.after(inner).after(outer) == stream.after(outer + inner),
{
    assert(outer + (inner + stream.tokens) =~= (outer + inner) + stream.tokens);
}

/// The mathematical values of a sequence of tokens and errors, in order.
pub open spec fn results_view(results: Seq<Result<JsonhToken, JsonhError>>) -> Seq<
    Result<JsonhTokenView, JsonhError>,
> {
    results.map_values(
        |r: Result<JsonhToken, JsonhError>|
            match r {
                Ok(token) => Ok(token@),
                Err(e) => Err(e),
            },
    )
}

/// Returns the stream of the tokens `tokens` that ended as `end` says, as a
/// sequence of results: each token, then the error if there is one.
pub fn stream_results(tokens: &Vec<JsonhToken>, end: Result<(), JsonhError>) -> (r: Vec<
    Result<JsonhToken, JsonhError>,
>)
    ensures
        results_view(r@) == (TokenStream {
            tokens: tokens_view(tokens@),
            error: match end {
                Ok(_) => None,
                Err(e) => Some(e),
            },
            pos: 0,
            depth: 0,
        }).results(),
{
    let mut results: Vec<Result<JsonhToken, JsonhError>> = Vec::new();
    let ghost all = tokens_view(tokens@).map_values(
        |t: JsonhTokenView| Ok::<JsonhTokenView, JsonhError>(t),
    );
    let mut index: usize = 0;
    while index < tokens.len()
        invariant
            index <= tokens.len(),
            results_view(results@) == all.take(index as int),
        decreases tokens.len() - index,
    {
        let token = tokens[index].clone();
        results.push(Ok(token));
        index += 1;
        assert(results_view(results@) =~= all.take(index as int));
    }
    assert(all.take(tokens.len() as int) =~= all);
    match end {
        Ok(_) => {},
        Err(e) => {
            results.push(Err(e));
            assert(results_view(results@) =~= all.push(Err(e)));
        },
    }
    results
}

} // verus!
