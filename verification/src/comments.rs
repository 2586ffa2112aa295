//! Comments: line comments, block comments and nestable block comments, and
//! the whitespace between them.
use vstd::prelude::*;
use crate::char_classes::{char_is_newline, is_newline};
use crate::escapes::Scanned;
use crate::json_token_type::JsonTokenType;
use crate::jsonh_error::JsonhError;
use crate::jsonh_reader::{
    is_char_at,
    lemma_whitespace_end,
    next_position,
    whitespace_end,
    JsonhReader,
};
use crate::jsonh_token::{push_token, tokens_view, JsonhToken, JsonhTokenView, TokenStream};
use crate::strings::{char_run, lemma_char_run};
use crate::text::{copy_range, string_of};

verus! {

/// The first position from `pos` on that holds a newline, or the length of
/// `s` if there is none.
pub open spec fn line_end(s: Seq<char>, pos: int) -> int
    decreases s.len() - pos,
{
    if 0 <= pos < s.len() && !is_newline(s[pos]) {
        line_end(s, pos + 1)
    } else {
        pos
    }
}

/// Whether the end of a block comment with `nesting` equals signs starts at
/// `pos`: `*`, the equals signs, `/`.
pub open spec fn is_block_end_at(s: Seq<char>, pos: int, nesting: nat) -> bool {
    &&& is_char_at(s, pos, '*')
    &&& char_run(s, pos + 1, '=') >= nesting
    &&& is_char_at(s, pos + 1 + nesting, '/')
}

/// The first position from `pos` on at which the end of a block comment with
/// `nesting` equals signs starts, or the length of `s` if there is none.
pub open spec fn block_end(s: Seq<char>, pos: int, nesting: nat) -> int
    decreases s.len() - pos,
{
    if 0 <= pos < s.len() && !is_block_end_at(s, pos, nesting) {
        block_end(s, pos + 1, nesting)
    } else {
        pos
    }
}

/// The comment token with the body `body`.
pub open spec fn comment_token(body: Seq<char>) -> JsonhTokenView {
    JsonhTokenView { json_type: JsonTokenType::Comment, value: body }
}

/// A line comment whose body starts at `start`: the body runs up to the next
/// newline, which is read too, or to the end of the input.
pub open spec fn spec_read_line_comment(s: Seq<char>, start: int) -> Scanned<JsonhTokenView> {
    let end = line_end(s, start);
    Scanned { result: Ok(comment_token(s.subrange(start, end))), pos: next_position(s, end) }
}

/// A block comment whose body starts at `start`: the body runs up to the
/// first end of a block comment with `nesting` equals signs, which must come.
pub open spec fn spec_read_block_comment(s: Seq<char>, start: int, nesting: nat) -> Scanned<
    JsonhTokenView,
> {
    let end = block_end(s, start, nesting);
    if end < s.len() {
        Scanned { result: Ok(comment_token(s.subrange(start, end))), pos: end + nesting + 2 }
    } else {
        Scanned { result: Err(JsonhError::ExpectedEndOfBlockComment), pos: end }
    }
}

/// Reading a comment from `pos`: `#` or `//` up to the end of the line,
/// `/*` up to `*/`, and in version 2 `/`, equals signs and `*` up to `*`, as
/// many equals signs and `/`.
#[verifier::opaque]
pub open spec fn spec_read_comment(s: Seq<char>, pos: int, v2: bool) -> Scanned<JsonhTokenView> {
    if is_char_at(s, pos, '#') {
        spec_read_line_comment(s, pos + 1)
    } else if is_char_at(s, pos, '/') {
        if is_char_at(s, pos + 1, '/') {
            spec_read_line_comment(s, pos + 2)
        } else if is_char_at(s, pos + 1, '*') {
            spec_read_block_comment(s, pos + 2, 0)
        } else if v2 && is_char_at(s, pos + 1, '=') {
            let nesting = char_run(s, pos + 1, '=');
            if is_char_at(s, pos + 1 + nesting, '*') {
                spec_read_block_comment(s, pos + 2 + nesting, nesting)
            } else {
                Scanned {
                    result: Err(JsonhError::ExpectedAsteriskAfterNesting),
                    pos: pos + 1 + nesting,
                }
            }
        } else {
            Scanned { result: Err(JsonhError::UnexpectedSlash), pos: pos + 1 }
        }
    } else {
        Scanned { result: Err(JsonhError::UnexpectedCharacter), pos }
    }
}

/// Whether a comment starts with the character at `pos`.
pub open spec fn is_comment_start(s: Seq<char>, pos: int) -> bool {
    is_char_at(s, pos, '#') || is_char_at(s, pos, '/')
}

/// Reading whitespace and comments from `pos` up to the first character that
/// is neither: each comment is a token of the stream, and a comment that
/// fails ends it.
pub open spec fn spec_read_comments_and_whitespace(
    s: Seq<char>,
    pos: int,
    depth: int,
    v2: bool,
) -> TokenStream
    decreases s.len() - pos,
{
    let start = whitespace_end(s, pos);
    if 0 <= pos <= s.len() && is_comment_start(s, start) {
        let comment = spec_read_comment(s, start, v2);
        match comment.result {
            Err(e) => TokenStream::fail(e, comment.pos, depth),
            Ok(token) => {
                proof {
                    lemma_whitespace_end(s, pos);
                    lemma_read_comment(s, start, v2);
                }
                spec_read_comments_and_whitespace(s, comment.pos, depth, v2).after(seq![token])
            },
        }
    } else {
        TokenStream::empty(start, depth)
    }
}

/// `line_end` stops at the first newline and passes none.
pub proof fn lemma_line_end(s: Seq<char>, pos: int)
    requires
        0 <= pos <= s.len(),
    ensures
        pos <= line_end(s, pos) <= s.len(),
        forall|i: int| pos <= i < line_end(s, pos) ==> !is_newline(#[trigger] s[i]),
        line_end(s, pos) < s.len() ==> is_newline(s[line_end(s, pos)]),
    decreases s.len() - pos,
{
    if pos < s.len() && !is_newline(s[pos]) {
        lemma_line_end(s, pos + 1);
    }
}

/// `block_end` stops at the first end of a block comment and passes none.
pub proof fn lemma_block_end(s: Seq<char>, pos: int, nesting: nat)
    requires
        0 <= pos <= s.len(),
    ensures
        pos <= block_end(s, pos, nesting) <= s.len(),
        forall|i: int| pos <= i < block_end(s, pos, nesting) ==> !is_block_end_at(s, i, nesting),
        block_end(s, pos, nesting) < s.len() ==> {
            &&& is_block_end_at(s, block_end(s, pos, nesting), nesting)
            &&& block_end(s, pos, nesting) + nesting + 2 <= s.len()
        },
    decreases s.len() - pos,
{
    if pos < s.len() && !is_block_end_at(s, pos, nesting) {
        lemma_block_end(s, pos + 1, nesting);
    }
}

/// Where no end of a block comment starts between `from` and `to`, the first
/// end from `from` on is the first from `to` on.
pub proof fn lemma_block_end_skip(s: Seq<char>, from: int, to: int, nesting: nat)
    requires
        0 <= from <= to <= s.len(),
        forall|i: int| from <= i < to ==> !is_block_end_at(s, i, nesting),
    ensures
        block_end(s, from, nesting) == block_end(s, to, nesting),
    decreases to - from,
{
    if from < to {
        lemma_block_end_skip(s, from + 1, to, nesting);
    }
}

/// A comment that was read has read at least one character and gives a
/// comment token, and reading stays inside the input.
pub proof fn lemma_read_comment(s: Seq<char>, pos: int, v2: bool)
    requires
        0 <= pos <= s.len(),
    ensures
        pos <= spec_read_comment(s, pos, v2).pos <= s.len(),
        spec_read_comment(s, pos, v2).result is Ok ==> spec_read_comment(s, pos, v2).pos > pos,
        spec_read_comment(s, pos, v2).result matches Ok(token) ==> token.json_type
            == JsonTokenType::Comment,
{
    reveal(spec_read_comment);
    if is_char_at(s, pos, '#') {
        lemma_line_end(s, pos + 1);
    } else if is_char_at(s, pos, '/') {
        if is_char_at(s, pos + 1, '/') {
            lemma_line_end(s, pos + 2);
        } else if is_char_at(s, pos + 1, '*') {
            lemma_block_end(s, pos + 2, 0);
        } else if v2 && is_char_at(s, pos + 1, '=') {
            let nesting = char_run(s, pos + 1, '=');
            lemma_char_run(s, pos + 1, '=');
            if is_char_at(s, pos + 1 + nesting, '*') {
                lemma_block_end(s, pos + 2 + nesting, nesting);
            }
        }
    }
}

/// Reading comments and whitespace stays inside the input, keeps the depth,
/// and gives comment tokens only.
pub proof fn lemma_read_comments_and_whitespace(s: Seq<char>, pos: int, depth: int, v2: bool)
    requires
        0 <= pos <= s.len(),
    ensures
        pos <= spec_read_comments_and_whitespace(s, pos, depth, v2).pos <= s.len(),
        spec_read_comments_and_whitespace(s, pos, depth, v2).depth == depth,
        forall|i: int|
            0 <= i < spec_read_comments_and_whitespace(s, pos, depth, v2).tokens.len()
                ==> (#[trigger] spec_read_comments_and_whitespace(
                s,
                pos,
                depth,
                v2,
            ).tokens[i]).json_type == JsonTokenType::Comment,
        spec_read_comments_and_whitespace(s, pos, depth, v2).error is None ==> {
            let end = spec_read_comments_and_whitespace(s, pos, depth, v2).pos;
            end < s.len() ==> !crate::char_classes::is_whitespace(s[end]) && !is_comment_start(
                s,
                end,
            )
        },
    decreases s.len() - pos,
{
    let start = whitespace_end(s, pos);
    lemma_whitespace_end(s, pos);
    if is_comment_start(s, start) {
        let comment = spec_read_comment(s, start, v2);
        lemma_read_comment(s, start, v2);
        if comment.result is Ok {
            lemma_read_comments_and_whitespace(s, comment.pos, depth, v2);
        }
    }
}

impl JsonhReader {
    /// Reads a comment and returns its token, which holds the body of the
    /// comment.
    pub fn read_comment(&mut self) -> (r: Result<JsonhToken, JsonhError>)
        requires
            old(self).wf(),
        ensures
            final(self).wf(),
            ({
                let out = spec_read_comment(
                    old(self).source@,
                    old(self).position(),
                    old(self).options.v2(),
                );
                &&& final(self).continues(old(self), out.pos, old(self).depth as int)
                &&& match r {
                    Ok(token) => out.result == Ok::<JsonhTokenView, JsonhError>(token@),
                    Err(e) => out.result == Err::<JsonhTokenView, JsonhError>(e),
                }
            }),
    {
        proof {
            reveal(spec_read_comment);
        }
        let v2 = self.v2();
        let mut block_comment = false;
        let mut start_nest_counter: usize = 0;
        if self.read_one('#') {
            // Hash-style comment
        } else if self.read_one('/') {
            if self.read_one('/') {
                // Line-style comment
            } else if self.read_one('*') {
                // Block-style comment
                block_comment = true;
            } else if v2 && self.peek() == Some('=') {
                // Nestable block-style comment
                block_comment = true;
                let ghost first = self.position();
                let mut counting = true;
                while counting
                    invariant
                        self.wf(),
                        self.source == old(self).source,
                        self.options == old(self).options,
                        self.depth == old(self).depth,
                        self.position() == first + start_nest_counter,
                        counting ==> start_nest_counter + char_run(
                            self.source@,
                            self.position(),
                            '=',
                        ) == char_run(self.source@, first, '='),
                        !counting ==> start_nest_counter == char_run(self.source@, first, '='),
                    decreases
                            self.source.len() - self.char_counter + if counting {
                                1int
                            } else {
                                0int
                            },
                {
                    if self.read_one('=') {
                        start_nest_counter += 1;
                    } else {
                        counting = false;
                    }
                }
                if !self.read_one('*') {
                    return Err(JsonhError::ExpectedAsteriskAfterNesting);
                }
            } else {
                return Err(JsonhError::UnexpectedSlash);
            }
        } else {
            return Err(JsonhError::UnexpectedCharacter);
        }
        // Read comment
        let start: usize = self.char_counter as usize;
        if block_comment {
            self.read_block_comment_body(start_nest_counter)
        } else {
            proof {
                lemma_line_end(self.source@, start as int);
            }
            loop
                invariant
                    self.wf(),
                    self.source == old(self).source,
                    self.options == old(self).options,
                    self.depth == old(self).depth,
                    start <= self.position(),
                    line_end(self.source@, self.position()) == line_end(
                        self.source@,
                        start as int,
                    ),
                decreases self.source.len() - self.char_counter,
            {
                let end: usize = self.char_counter as usize;
                let at_end = match self.read() {
                    None => true,
                    Some(next) => char_is_newline(next),
                };
                if at_end {
                    // End of line comment
                    let body = copy_range(&self.source, start, end);
                    return Ok(JsonhToken::new(JsonTokenType::Comment, string_of(&body)));
                }
            }
        }
    }

    /// Reads the body of a block comment up to its end, which has `nesting`
    /// equals signs between `*` and `/`, and returns the comment's token.
    pub fn read_block_comment_body(&mut self, nesting: usize) -> (r: Result<JsonhToken, JsonhError>)
        requires
            old(self).wf(),
        ensures
            final(self).wf(),
            ({
                let out = spec_read_block_comment(
                    old(self).source@,
                    old(self).position(),
                    nesting as nat,
                );
                &&& final(self).continues(old(self), out.pos, old(self).depth as int)
                &&& match r {
                    Ok(token) => out.result == Ok::<JsonhTokenView, JsonhError>(token@),
                    Err(e) => out.result == Err::<JsonhTokenView, JsonhError>(e),
                }
            }),
    {
        let start: usize = self.char_counter as usize;
        proof {
            lemma_block_end(self.source@, start as int, nesting as nat);
        }
        loop
            invariant
                self.wf(),
                self.source == old(self).source,
                self.options == old(self).options,
                self.depth == old(self).depth,
                start == old(self).position(),
                start <= self.position(),
                block_end(self.source@, self.position(), nesting as nat) == block_end(
                    self.source@,
                    start as int,
                    nesting as nat,
                ),
            decreases self.source.len() - self.char_counter,
        {
            let star: usize = self.char_counter as usize;
            proof {
                lemma_block_end(self.source@, star as int, nesting as nat);
            }
            let next = match self.read() {
                Some(c) => c,
                None => { return Err(JsonhError::ExpectedEndOfBlockComment); },
            };
            if next == '*' {
                // Count the equals signs of a nestable block comment
                let mut end_nest_counter: usize = 0;
                let mut counting = true;
                while counting && end_nest_counter < nesting
                    invariant
                        self.wf(),
                        self.source == old(self).source,
                        self.options == old(self).options,
                        self.depth == old(self).depth,
                        self.position() == star + 1 + end_nest_counter,
                        end_nest_counter <= nesting,
                        counting ==> end_nest_counter + char_run(
                            self.source@,
                            self.position(),
                            '=',
                        ) == char_run(self.source@, star + 1, '='),
                        !counting ==> end_nest_counter == char_run(self.source@, star + 1, '=')
                            && end_nest_counter < nesting,
                        forall|i: int|
                            star < i < self.position() ==> #[trigger] self.source@[i] == '=',
                    decreases
                            self.source.len() - self.char_counter + if counting {
                                1int
                            } else {
                                0int
                            },
                {
                    if self.read_one('=') {
                        end_nest_counter += 1;
                    } else {
                        counting = false;
                    }
                }
                if end_nest_counter == nesting && self.read_one('/') {
                    // End of block comment
                    let body = copy_range(&self.source, start, star);
                    return Ok(JsonhToken::new(JsonTokenType::Comment, string_of(&body)));
                }
                // Partial end of block comment was actually part of comment
                proof {
                    assert(!is_block_end_at(self.source@, star as int, nesting as nat));
                    assert forall|i: int| star <= i < self.position() implies !is_block_end_at(
                        self.source@,
                        i,
                        nesting as nat,
                    ) by {
                        if i > star {
                            assert(self.source@[i] == '=');
                        }
                    }
                    lemma_block_end_skip(
                        self.source@,
                        star as int,
                        self.position(),
                        nesting as nat,
                    );
                }
            }
        }
    }

    /// Reads whitespace and comments, and appends a token for each comment
    /// to `tokens`.
    pub fn read_comments_and_whitespace(&mut self, tokens: &mut Vec<JsonhToken>) -> (r: Result<
        (),
        JsonhError,
    >)
        requires
            old(self).wf(),
        ensures
            final(self).wf(),
            ({
                let out = spec_read_comments_and_whitespace(
                    old(self).source@,
                    old(self).position(),
                    old(self).depth as int,
                    old(self).options.v2(),
                );
                &&& final(self).continues(old(self), out.pos, out.depth)
                &&& tokens_view(final(tokens)@) == tokens_view(old(tokens)@) + out.tokens
                &&& r == out.outcome()
            }),
            final(self).depth == old(self).depth,
    {
        let ghost s = self.source@;
        let ghost depth = self.depth as int;
        let ghost v2 = self.options.v2();
        let ghost total = spec_read_comments_and_whitespace(s, self.position(), depth, v2);
        assert(tokens_view(tokens@) + Seq::<JsonhTokenView>::empty() =~= tokens_view(tokens@));
        loop
            invariant
                self.wf(),
                self.source == old(self).source,
                self.options == old(self).options,
                self.depth == old(self).depth,
                spec_read_comments_and_whitespace(s, self.position(), depth, v2).after(
                    tokens_view(tokens@),
                ) == total.after(tokens_view(old(tokens)@)),
            decreases self.source.len() - self.char_counter,
        {
            let ghost before = self.position();
            let ghost emitted = tokens_view(tokens@);
            // Whitespace
            self.read_whitespace();
            proof {
                lemma_whitespace_end(s, before);
                lemma_read_comment(s, self.position(), v2);
            }
            // Comment
            let next = self.peek();
            if next == Some('#') || next == Some('/') {
                match self.read_comment() {
                    Ok(token) => {
                        let ghost rest = spec_read_comments_and_whitespace(
                            s,
                            self.position(),
                            depth,
                            v2,
                        );
                        push_token(tokens, token);
                        assert(rest.after(seq![token@]).after(emitted) == rest.after(
                            tokens_view(tokens@),
                        )) by {
                            assert(emitted + (seq![token@] + rest.tokens) =~= (emitted + seq![
                                token@,
                            ]) + rest.tokens);
                        }
                    },
                    Err(err) => {
                        assert(emitted + Seq::<JsonhTokenView>::empty() =~= emitted);
                        return Err(err);
                    },
                }
            } else {
                // End of comments
                assert(emitted + Seq::<JsonhTokenView>::empty() =~= emitted);
                return Ok(());
            }
        }
    }
}

} // verus!
