//! String tokens: quoted, multi-quoted, verbatim and quoteless strings, and
//! named literals.
use vstd::prelude::*;
use crate::char_classes::{
    char_is_newline,
    char_is_reserved,
    char_is_whitespace,
    is_newline,
    is_reserved,
    is_whitespace,
};
use crate::escapes::{lemma_read_escape_sequence, spec_read_escape_sequence, Scanned};
use crate::indent::{strip_indent, strip_multi_quoted_indent, trim_whitespace, trimmed};
use crate::json_token_type::JsonTokenType;
use crate::jsonh_error::JsonhError;
use crate::jsonh_reader::{char_at, is_char_at, JsonhReader};
use crate::jsonh_token::{JsonhToken, JsonhTokenView};
use crate::text::{chars_of, string_of};

verus! {

/// The characters of a quoteless string as they were read, and whether the
/// text may still be a named literal: none of it was escaped or verbatim.
pub struct QuotelessChars {
    pub chars: Seq<char>,
    pub literal: bool,
}

/// `chars` followed by the character `c`, if there is one.
pub open spec fn push_decoded(chars: Seq<char>, c: Option<char>) -> Seq<char> {
    match c {
        Some(c) => chars.push(c),
        None => chars,
    }
}

/// The character `c`, `n` times.
pub open spec fn repeat_char(c: char, n: nat) -> Seq<char> {
    Seq::new(n, |i: int| c)
}

/// The number of characters `c` in a row that start at `pos`.
pub open spec fn char_run(s: Seq<char>, pos: int, c: char) -> nat
    decreases s.len() - pos,
{
    if is_char_at(s, pos, c) {
        1 + char_run(s, pos + 1, c)
    } else {
        0
    }
}

/// Reading the characters of a quoteless string from `pos`, after the
/// characters `acc`. The string ends before the first reserved character or
/// newline that is not escaped, or at the end of the input. A `\` starts an
/// escape sequence, unless the string is verbatim: then the `\` is a character
/// of the string.
pub open spec fn spec_read_quoteless_chars(
    s: Seq<char>,
    pos: int,
    v2: bool,
    verbatim: bool,
    acc: Seq<char>,
    literal: bool,
) -> Scanned<QuotelessChars>
    decreases s.len() - pos,
{
    match char_at(s, pos) {
        None => Scanned { result: Ok(QuotelessChars { chars: acc, literal }), pos },
        Some(c) => {
            if c == '\\' {
                if verbatim {
                    spec_read_quoteless_chars(s, pos + 1, v2, verbatim, acc.push(c), false)
                } else {
                    let escape = spec_read_escape_sequence(s, pos + 1, None);
                    match escape.result {
                        Err(e) => Scanned { result: Err(e), pos: escape.pos },
                        Ok(decoded) => {
                            proof {
                                lemma_read_escape_sequence(s, pos + 1, None);
                            }
                            spec_read_quoteless_chars(
                                s,
                                escape.pos,
                                v2,
                                verbatim,
                                push_decoded(acc, decoded),
                                false,
                            )
                        },
                    }
                }
            } else if is_reserved(c, v2) || is_newline(c) {
                Scanned { result: Ok(QuotelessChars { chars: acc, literal }), pos }
            } else {
                spec_read_quoteless_chars(s, pos + 1, v2, verbatim, acc.push(c), literal)
            }
        },
    }
}

/// The kind of the token that a quoteless string with the trimmed text `text`
/// makes: a named literal where the text is one and may be one, else a string.
pub open spec fn quoteless_kind(text: Seq<char>, literal: bool) -> JsonTokenType {
    if literal && text == seq!['n', 'u', 'l', 'l'] {
        JsonTokenType::Null
    } else if literal && text == seq!['t', 'r', 'u', 'e'] {
        JsonTokenType::True
    } else if literal && text == seq!['f', 'a', 'l', 's', 'e'] {
        JsonTokenType::False
    } else {
        JsonTokenType::String
    }
}

/// Reading a quoteless string from `pos` that starts with the characters
/// `initial`. The string must have a character; its value is the text without
/// the whitespace around it.
#[verifier::opaque]
pub open spec fn spec_read_quoteless_string(
    s: Seq<char>,
    pos: int,
    v2: bool,
    initial: Seq<char>,
    verbatim: bool,
) -> Scanned<JsonhTokenView> {
    let scan = spec_read_quoteless_chars(s, pos, v2, verbatim, initial, !verbatim);
    match scan.result {
        Err(e) => Scanned { result: Err(e), pos: scan.pos },
        Ok(read) => if read.chars.len() == 0 {
            Scanned { result: Err(JsonhError::EmptyQuotelessString), pos: scan.pos }
        } else {
            Scanned {
                result: Ok(
                    JsonhTokenView {
                        json_type: quoteless_kind(trimmed(read.chars), read.literal),
                        value: trimmed(read.chars),
                    },
                ),
                pos: scan.pos,
            }
        },
    }
}

/// Reading the content of a quoted string from `pos`, after the characters
/// `acc` and `pending` quotes that may start the end of the string. The
/// string ends with `count` quotes `quote` in a row; fewer belong to the
/// content. A `\` starts an escape sequence, unless the string is verbatim.
pub open spec fn spec_read_quoted_chars(
    s: Seq<char>,
    pos: int,
    quote: char,
    count: nat,
    verbatim: bool,
    pending: nat,
    acc: Seq<char>,
) -> Scanned<Seq<char>>
    decreases s.len() - pos,
{
    match char_at(s, pos) {
        None => Scanned { result: Err(JsonhError::ExpectedEndOfString), pos },
        Some(c) => {
            if c == quote {
                if pending + 1 == count {
                    Scanned { result: Ok(acc), pos: pos + 1 }
                } else {
                    spec_read_quoted_chars(s, pos + 1, quote, count, verbatim, pending + 1, acc)
                }
            } else {
                let content = acc + repeat_char(quote, pending);
                if c == '\\' && !verbatim {
                    let escape = spec_read_escape_sequence(s, pos + 1, None);
                    match escape.result {
                        Err(e) => Scanned { result: Err(e), pos: escape.pos },
                        Ok(decoded) => {
                            proof {
                                lemma_read_escape_sequence(s, pos + 1, None);
                            }
                            spec_read_quoted_chars(
                                s,
                                escape.pos,
                                quote,
                                count,
                                verbatim,
                                0,
                                push_decoded(content, decoded),
                            )
                        },
                    }
                } else {
                    spec_read_quoted_chars(
                        s,
                        pos + 1,
                        quote,
                        count,
                        verbatim,
                        0,
                        content.push(c),
                    )
                }
            }
        },
    }
}

/// Whether a string may start with the character `c` after the verbatim
/// symbol: not where the input ends, a comment starts or whitespace follows.
pub open spec fn follows_verbatim(c: Option<char>) -> bool {
    match c {
        None => false,
        Some(c) => c != '#' && c != '/' && !is_whitespace(c),
    }
}

/// Reading a string from `pos`: quoted with one kind of quote, multi-quoted
/// with three or more, or quoteless; in version 2 verbatim after `@`. Two
/// quotes are the empty string. The content of a multi-quoted string loses
/// its indentation.
#[verifier::opaque]
pub open spec fn spec_read_string(s: Seq<char>, pos: int, v2: bool) -> Scanned<JsonhTokenView> {
    let verbatim = v2 && is_char_at(s, pos, '@');
    let start = if verbatim {
        pos + 1
    } else {
        pos
    };
    if verbatim && !follows_verbatim(char_at(s, start)) {
        Scanned { result: Err(JsonhError::ExpectedStringAfterVerbatim), pos: start }
    } else if is_char_at(s, start, '"') || is_char_at(s, start, '\'') {
        let quote = s[start];
        let count = char_run(s, start, quote);
        if count == 2 {
            Scanned {
                result: Ok(JsonhTokenView { json_type: JsonTokenType::String, value: Seq::empty() }),
                pos: start + 2,
            }
        } else {
            let content = spec_read_quoted_chars(
                s,
                start + count,
                quote,
                count,
                verbatim,
                0,
                Seq::empty(),
            );
            match content.result {
                Err(e) => Scanned { result: Err(e), pos: content.pos },
                Ok(chars) => Scanned {
                    result: Ok(
                        JsonhTokenView {
                            json_type: JsonTokenType::String,
                            value: if count > 1 {
                                strip_indent(chars)
                            } else {
                                chars
                            },
                        },
                    ),
                    pos: content.pos,
                },
            }
        }
    } else {
        spec_read_quoteless_string(s, start, v2, Seq::empty(), verbatim)
    }
}

/// The characters of a quoteless string are read forward and inside the input.
pub proof fn lemma_read_quoteless_chars(
    s: Seq<char>,
    pos: int,
    v2: bool,
    verbatim: bool,
    acc: Seq<char>,
    literal: bool,
)
    requires
        0 <= pos <= s.len(),
    ensures
        pos <= spec_read_quoteless_chars(s, pos, v2, verbatim, acc, literal).pos <= s.len(),
        spec_read_quoteless_chars(s, pos, v2, verbatim, acc, literal).result matches Ok(read) ==> {
            &&& read.chars.len() >= acc.len()
            &&& read.chars.len() > acc.len() ==> spec_read_quoteless_chars(
                s,
                pos,
                v2,
                verbatim,
                acc,
                literal,
            ).pos > pos
        },
    decreases s.len() - pos,
{
    match char_at(s, pos) {
        None => {},
        Some(c) => {
            if c == '\\' {
                if verbatim {
                    lemma_read_quoteless_chars(s, pos + 1, v2, verbatim, acc.push(c), false);
                } else {
                    let escape = spec_read_escape_sequence(s, pos + 1, None);
                    lemma_read_escape_sequence(s, pos + 1, None);
                    if escape.result is Ok {
                        lemma_read_quoteless_chars(
                            s,
                            escape.pos,
                            v2,
                            verbatim,
                            push_decoded(acc, escape.result->Ok_0),
                            false,
                        );
                    }
                }
            } else if is_reserved(c, v2) || is_newline(c) {
            } else {
                lemma_read_quoteless_chars(s, pos + 1, v2, verbatim, acc.push(c), literal);
            }
        },
    }
}

/// The content of a quoted string is read forward and inside the input, and
/// a string that ends has read its closing quote.
pub proof fn lemma_read_quoted_chars(
    s: Seq<char>,
    pos: int,
    quote: char,
    count: nat,
    verbatim: bool,
    pending: nat,
    acc: Seq<char>,
)
    requires
        0 <= pos <= s.len(),
    ensures
        pos <= spec_read_quoted_chars(s, pos, quote, count, verbatim, pending, acc).pos <= s.len(),
        spec_read_quoted_chars(s, pos, quote, count, verbatim, pending, acc).result is Ok
            ==> spec_read_quoted_chars(s, pos, quote, count, verbatim, pending, acc).pos > pos,
    decreases s.len() - pos,
{
    match char_at(s, pos) {
        None => {},
        Some(c) => {
            if c == quote {
                if pending + 1 != count {
                    lemma_read_quoted_chars(s, pos + 1, quote, count, verbatim, pending + 1, acc);
                }
            } else {
                let content = acc + repeat_char(quote, pending);
                if c == '\\' && !verbatim {
                    let escape = spec_read_escape_sequence(s, pos + 1, None);
                    lemma_read_escape_sequence(s, pos + 1, None);
                    if escape.result is Ok {
                        lemma_read_quoted_chars(
                            s,
                            escape.pos,
                            quote,
                            count,
                            verbatim,
                            0,
                            push_decoded(content, escape.result->Ok_0),
                        );
                    }
                } else {
                    lemma_read_quoted_chars(s, pos + 1, quote, count, verbatim, 0, content.push(c));
                }
            }
        },
    }
}

/// A run of one character ends inside the input.
pub proof fn lemma_char_run(s: Seq<char>, pos: int, c: char)
    requires
        0 <= pos <= s.len(),
    ensures
        pos + char_run(s, pos, c) <= s.len(),
    decreases s.len() - pos,
{
    if is_char_at(s, pos, c) {
        lemma_char_run(s, pos + 1, c);
    }
}

/// A string that was read has read at least one character, and reading stays
/// inside the input.
pub proof fn lemma_read_string(s: Seq<char>, pos: int, v2: bool)
    requires
        0 <= pos <= s.len(),
    ensures
        pos <= spec_read_string(s, pos, v2).pos <= s.len(),
        spec_read_string(s, pos, v2).result is Ok ==> spec_read_string(s, pos, v2).pos > pos,
{
    reveal(spec_read_string);
    reveal(spec_read_quoteless_string);
    let verbatim = v2 && is_char_at(s, pos, '@');
    let start = if verbatim {
        pos + 1
    } else {
        pos
    };
    if verbatim && !follows_verbatim(char_at(s, start)) {
    } else if is_char_at(s, start, '"') || is_char_at(s, start, '\'') {
        let quote = s[start];
        let count = char_run(s, start, quote);
        lemma_char_run(s, start, quote);
        if count != 2 {
            lemma_read_quoted_chars(s, start + count, quote, count, verbatim, 0, Seq::empty());
        }
    } else {
        lemma_read_quoteless_chars(s, start, v2, verbatim, Seq::empty(), !verbatim);
    }
}

impl JsonhReader {
    /// Reads a quoteless string that starts with `initial_chars`, which were
    /// read before, and returns its token: a string or a named literal.
    pub fn read_quoteless_string(&mut self, initial_chars: &str, is_verbatim: bool) -> (r: Result<
        JsonhToken,
        JsonhError,
    >)
        requires
            old(self).wf(),
        ensures
            final(self).wf(),
            ({
                let out = spec_read_quoteless_string(
                    old(self).source@,
                    old(self).position(),
                    old(self).options.v2(),
                    initial_chars@,
                    is_verbatim,
                );
                &&& final(self).continues(old(self), out.pos, old(self).depth as int)
                &&& match r {
                    Ok(token) => out.result == Ok::<JsonhTokenView, JsonhError>(token@),
                    Err(e) => out.result == Err::<JsonhTokenView, JsonhError>(e),
                }
            }),
    {
        self.read_quoteless_chars(chars_of(initial_chars), is_verbatim)
    }

    /// Reads a quoteless string that starts with the characters
    /// `initial_chars`, which were read before, and returns its token.
    pub fn read_quoteless_chars(&mut self, initial_chars: Vec<char>, is_verbatim: bool) -> (r:
        Result<JsonhToken, JsonhError>)
        requires
            old(self).wf(),
        ensures
            final(self).wf(),
            ({
                let out = spec_read_quoteless_string(
                    old(self).source@,
                    old(self).position(),
                    old(self).options.v2(),
                    initial_chars@,
                    is_verbatim,
                );
                &&& final(self).continues(old(self), out.pos, old(self).depth as int)
                &&& match r {
                    Ok(token) => out.result == Ok::<JsonhTokenView, JsonhError>(token@),
                    Err(e) => out.result == Err::<JsonhTokenView, JsonhError>(e),
                }
            }),
    {
        proof {
            reveal(spec_read_quoteless_string);
        }
        let v2 = self.v2();
        let mut is_named_literal_possible = !is_verbatim;
        let mut string_builder = initial_chars;
        let ghost total = spec_read_quoteless_chars(
            old(self).source@,
            old(self).position(),
            v2,
            is_verbatim,
            initial_chars@,
            !is_verbatim,
        );
        let mut done = false;
        while !done
            invariant
                self.wf(),
                self.source == old(self).source,
                self.options == old(self).options,
                self.depth == old(self).depth,
                !done ==> spec_read_quoteless_chars(
                    self.source@,
                    self.position(),
                    v2,
                    is_verbatim,
                    string_builder@,
                    is_named_literal_possible,
                ) == total,
                done ==> self.position() == total.pos && total.result == Ok::<
                    QuotelessChars,
                    JsonhError,
                >(QuotelessChars { chars: string_builder@, literal: is_named_literal_possible }),
            decreases self.source.len() - self.char_counter + if done { 0int } else { 1int },
        {
            match self.peek() {
                None => {
                    done = true;
                },
                Some(next) => {
                    if next == '\\' {
                        // Escape sequence
                        self.read();
                        if is_verbatim {
                            string_builder.push(next);
                        } else {
                            proof {
                                lemma_read_escape_sequence(self.source@, self.position(), None);
                            }
                            match self.read_escape_sequence(None) {
                                Ok(Some(escape_sequence_char)) => {
                                    string_builder.push(escape_sequence_char);
                                },
                                Ok(None) => {},
                                Err(err) => { return Err(err); },
                            }
                        }
                        is_named_literal_possible = false;
                    } else if char_is_reserved(next, v2) || char_is_newline(next) {
                        // End on reserved character or newline
                        done = true;
                    } else {
                        // Literal character
                        self.read();
                        string_builder.push(next);
                    }
                },
            }
        }
        // Ensure not empty
        if string_builder.len() == 0 {
            return Err(JsonhError::EmptyQuotelessString);
        }
        // Trim whitespace
        let text = trim_whitespace(&string_builder);
        // Match named literal
        let mut json_type = JsonTokenType::String;
        if is_named_literal_possible {
            if text.len() == 4 && text[0] == 'n' && text[1] == 'u' && text[2] == 'l' && text[3]
                == 'l' {
                assert(text@ =~= seq!['n', 'u', 'l', 'l']);
                json_type = JsonTokenType::Null;
            } else if text.len() == 4 && text[0] == 't' && text[1] == 'r' && text[2] == 'u'
                && text[3] == 'e' {
                assert(text@ =~= seq!['t', 'r', 'u', 'e']);
                json_type = JsonTokenType::True;
            } else if text.len() == 5 && text[0] == 'f' && text[1] == 'a' && text[2] == 'l'
                && text[3] == 's' && text[4] == 'e' {
                assert(text@ =~= seq!['f', 'a', 'l', 's', 'e']);
                json_type = JsonTokenType::False;
            }
        }
        Ok(JsonhToken::new(json_type, string_of(&text)))
    }

    /// Reads a string: quoted, multi-quoted or quoteless, and verbatim where
    /// `@` stands before it and the version has verbatim strings.
    pub fn read_string(&mut self) -> (r: Result<JsonhToken, JsonhError>)
        requires
            old(self).wf(),
        ensures
            final(self).wf(),
            ({
                let out = spec_read_string(
                    old(self).source@,
                    old(self).position(),
                    old(self).options.v2(),
                );
                &&& final(self).continues(old(self), out.pos, old(self).depth as int)
                &&& match r {
                    Ok(token) => out.result == Ok::<JsonhTokenView, JsonhError>(token@),
                    Err(e) => out.result == Err::<JsonhTokenView, JsonhError>(e),
                }
            }),
    {
        proof {
            reveal(spec_read_string);
        }
        // Verbatim
        let mut is_verbatim = false;
        if self.v2() && self.read_one('@') {
            is_verbatim = true;
            // Ensure string immediately follows verbatim symbol
            match self.peek() {
                None => { return Err(JsonhError::ExpectedStringAfterVerbatim); },
                Some(next) => {
                    if next == '#' || next == '/' || char_is_whitespace(next) {
                        return Err(JsonhError::ExpectedStringAfterVerbatim);
                    }
                },
            }
        }
        let ghost start = self.position();
        // Start quote
        let start_quote = match self.peek() {
            Some(c) => c,
            None => { return self.read_quoteless_chars(Vec::new(), is_verbatim); },
        };
        if !(start_quote == '"' || start_quote == '\'') {
            return self.read_quoteless_chars(Vec::new(), is_verbatim);
        }
        self.read();
        // Count multiple start quotes
        let mut start_quote_counter: usize = 1;
        let mut counting = true;
        while counting
            invariant
                self.wf(),
                self.source == old(self).source,
                self.options == old(self).options,
                self.depth == old(self).depth,
                self.position() == start + start_quote_counter,
                start_quote_counter >= 1,
                counting ==> start_quote_counter + char_run(
                    self.source@,
                    self.position(),
                    start_quote,
                ) == char_run(self.source@, start, start_quote),
                !counting ==> start_quote_counter == char_run(self.source@, start, start_quote),
            decreases self.source.len() - self.char_counter + if counting { 1int } else { 0int },
        {
            if self.read_one(start_quote) {
                start_quote_counter += 1;
            } else {
                counting = false;
            }
        }
        // Empty string
        if start_quote_counter == 2 {
            return Ok(JsonhToken::new(JsonTokenType::String, String::new()));
        }
        // Count multiple end quotes
        let mut end_quote_counter: usize = 0;
        // Read string
        let mut string_builder: Vec<char> = Vec::new();
        let ghost total = spec_read_quoted_chars(
            self.source@,
            self.position(),
            start_quote,
            start_quote_counter as nat,
            is_verbatim,
            0,
            Seq::empty(),
        );
        let mut done = false;
        while !done
            invariant
                self.wf(),
                self.source == old(self).source,
                self.options == old(self).options,
                self.depth == old(self).depth,
                end_quote_counter < start_quote_counter,
                !done ==> spec_read_quoted_chars(
                    self.source@,
                    self.position(),
                    start_quote,
                    start_quote_counter as nat,
                    is_verbatim,
                    end_quote_counter as nat,
                    string_builder@,
                ) == total,
                done ==> self.position() == total.pos && total.result == Ok::<
                    Seq<char>,
                    JsonhError,
                >(string_builder@),
            decreases self.source.len() - self.char_counter + if done { 0int } else { 1int },
        {
            let next = match self.read() {
                Some(c) => c,
                None => { return Err(JsonhError::ExpectedEndOfString); },
            };
            if next == start_quote {
                // End quote
                end_quote_counter += 1;
                if end_quote_counter == start_quote_counter {
                    end_quote_counter = 0;
                    done = true;
                }
            } else {
                // Partial end quote was actually part of string
                let ghost content = string_builder@ + repeat_char(
                    start_quote,
                    end_quote_counter as nat,
                );
                while end_quote_counter > 0
                    invariant
                        string_builder@ + repeat_char(start_quote, end_quote_counter as nat)
                            == content,
                    decreases end_quote_counter,
                {
                    let ghost before = string_builder@;
                    string_builder.push(start_quote);
                    end_quote_counter -= 1;
                    assert(string_builder@ + repeat_char(start_quote, end_quote_counter as nat)
                        =~= before + repeat_char(start_quote, (end_quote_counter + 1) as nat));
                }
                assert(string_builder@ =~= content);
                if next == '\\' && !is_verbatim {
                    // Escape sequence
                    proof {
                        lemma_read_escape_sequence(self.source@, self.position(), None);
                    }
                    match self.read_escape_sequence(None) {
                        Ok(Some(escape_sequence_char)) => {
                            string_builder.push(escape_sequence_char);
                        },
                        Ok(None) => {},
                        Err(err) => { return Err(err); },
                    }
                } else {
                    // Literal character
                    string_builder.push(next);
                }
            }
        }
        // Multi-quoted strings lose their indentation
        if start_quote_counter > 1 {
            string_builder = strip_multi_quoted_indent(string_builder);
        }
        // End of string
        Ok(JsonhToken::new(JsonTokenType::String, string_of(&string_builder)))
    }
}

} // verus!