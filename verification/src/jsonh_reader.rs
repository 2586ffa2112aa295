//! The reader and its cursor: looking at the next character and reading it.
use vstd::prelude::*;
use crate::char_classes::{char_is_whitespace, is_whitespace};
use crate::jsonh_reader_options::JsonhReaderOptions;
use crate::text::chars_of;
use std::str::Chars;
use vstd::std_specs::iter::IteratorSpec;

verus! {

/// A reader of JSONH: the characters of the input, the options, and how far
/// the input has been read.
pub struct JsonhReader {
    /// The characters to read.
    pub source: Vec<char>,
    /// The options to use when reading JSONH.
    pub options: JsonhReaderOptions,
    /// The number of characters read from `source`.
    pub char_counter: u64,
    /// The current nesting depth of the reader.
    pub depth: i32,
}

/// The character of `s` at `pos`, if there is one.
pub open spec fn char_at(s: Seq<char>, pos: int) -> Option<char> {
    if 0 <= pos < s.len() {
        Some(s[pos])
    } else {
        None
    }
}

/// Whether the character of `s` at `pos` is `c`.
pub open spec fn is_char_at(s: Seq<char>, pos: int, c: char) -> bool {
    0 <= pos < s.len() && s[pos] == c
}

/// The position after the character at `pos`, or `pos` at the end of `s`.
pub open spec fn next_position(s: Seq<char>, pos: int) -> int {
    if 0 <= pos < s.len() {
        pos + 1
    } else {
        pos
    }
}

/// The first position from `pos` on that holds no whitespace character, or
/// the length of `s` if whitespace runs to the end.
pub open spec fn whitespace_end(s: Seq<char>, pos: int) -> int
    decreases s.len() - pos,
{
    if 0 <= pos < s.len() && is_whitespace(s[pos]) {
        whitespace_end(s, pos + 1)
    } else {
        pos
    }
}

/// `whitespace_end` stops at the first character that is no whitespace and
/// passes only whitespace.
pub proof fn lemma_whitespace_end(s: Seq<char>, pos: int)
    requires
        0 <= pos <= s.len(),
    ensures
        pos <= whitespace_end(s, pos) <= s.len(),
        forall|i: int| pos <= i < whitespace_end(s, pos) ==> is_whitespace(#[trigger] s[i]),
        whitespace_end(s, pos) < s.len() ==> !is_whitespace(s[whitespace_end(s, pos)]),
    decreases s.len() - pos,
{
    if pos < s.len() && is_whitespace(s[pos]) {
        lemma_whitespace_end(s, pos + 1);
    }
}

impl JsonhReader {
    /// The reader's invariant: the counter of characters read does not pass
    /// the end of the input, and the depth is not negative.
    pub open spec fn wf(&self) -> bool {
        &&& self.char_counter <= self.source.len()
        &&& self.depth >= 0
    }

    /// The position of the next character to read.
    pub open spec fn position(&self) -> int {
        self.char_counter as int
    }

    /// Whether this reader reads the input and has the options of `before`,
    /// and stands at `position` with depth `depth`.
    pub open spec fn continues(&self, before: &Self, position: int, depth: int) -> bool {
        &&& self.source == before.source
        &&& self.options == before.options
        &&& self.char_counter == position
        &&& self.depth == depth
    }

    /// Constructs a reader that reads JSONH from characters that are at hand,
    /// so that the reader can look ahead in them.
    pub fn from_peekable_chars(source: Vec<char>, options: JsonhReaderOptions) -> (r: Self)
        ensures
            r.wf(),
            r.source == source,
            r.options == options,
            r.char_counter == 0,
            r.depth == 0,
    {
        JsonhReader { source, options, char_counter: 0, depth: 0 }
    }

    /// Constructs a reader that reads JSONH from a character iterator, as
    /// `str::chars` returns it.
    pub fn from_chars(source: Chars<'_>, options: JsonhReaderOptions) -> (r: Self)
        requires
            IteratorSpec::initial_value_relation(&source, &source),
            IteratorSpec::decrease(&source) is Some,
        ensures
            r.wf(),
            r.source@ == source.remaining(),
            r.options == options,
            r.char_counter == 0,
            r.depth == 0,
    {
        let mut chars: Vec<char> = Vec::new();
        for c in it: source
            invariant
                chars@ == it.seq().take(it.index() as int),
        {
            chars.push(c);
        }
        Self::from_peekable_chars(chars, options)
    }

    /// Constructs a reader that reads JSONH from a string slice.
    pub fn from_str(source: &str, options: JsonhReaderOptions) -> (r: Self)
        ensures
            r.wf(),
            r.source@ == source@,
            r.options == options,
            r.char_counter == 0,
            r.depth == 0,
    {
        Self::from_peekable_chars(chars_of(source), options)
    }

    /// Constructs a reader that reads JSONH from a string.
    pub fn from_string(source: &String, options: JsonhReaderOptions) -> (r: Self)
        ensures
            r.wf(),
            r.source@ == source@,
            r.options == options,
            r.char_counter == 0,
            r.depth == 0,
    {
        Self::from_str(source.as_str(), options)
    }

    /// Returns whether the options enable the syntax of version 2.
    pub fn v2(&self) -> (r: bool)
        ensures
            r == self.options.v2(),
    {
        self.options.supports_version(crate::jsonh_version::JsonhVersion::V2)
    }

    /// Returns the next character without reading it.
    pub fn peek(&self) -> (r: Option<char>)
        requires
            self.wf(),
        ensures
            r == char_at(self.source@, self.position()),
    {
        if self.char_counter < self.source.len() as u64 {
            Some(self.source[self.char_counter as usize])
        } else {
            None
        }
    }

    /// Reads the next character, if there is one.
    pub fn read(&mut self) -> (r: Option<char>)
        requires
            old(self).wf(),
        ensures
            final(self).wf(),
            r == char_at(old(self).source@, old(self).position()),
            final(self).continues(
                old(self),
                next_position(old(self).source@, old(self).position()),
                old(self).depth as int,
            ),
    {
        if self.char_counter < self.source.len() as u64 {
            let c = self.source[self.char_counter as usize];
            self.char_counter = self.char_counter + 1;
            Some(c)
        } else {
            None
        }
    }

    /// Reads the next character if it is `option`, and returns whether it was.
    pub fn read_one(&mut self, option: char) -> (r: bool)
        requires
            old(self).wf(),
        ensures
            final(self).wf(),
            r == is_char_at(old(self).source@, old(self).position(), option),
            final(self).continues(
                old(self),
                if r {
                    old(self).position() + 1
                } else {
                    old(self).position()
                },
                old(self).depth as int,
            ),
    {
        if self.peek() == Some(option) {
            self.read();
            true
        } else {
            false
        }
    }

    /// Reads the next character if it is one of `options`, and returns it.
    pub fn read_any(&mut self, options: &[char]) -> (r: Option<char>)
        requires
            old(self).wf(),
        ensures
            final(self).wf(),
            r == match char_at(old(self).source@, old(self).position()) {
                Some(c) => if options@.contains(c) {
                    Some(c)
                } else {
                    None
                },
                None => None,
            },
            final(self).continues(
                old(self),
                if r is Some {
                    old(self).position() + 1
                } else {
                    old(self).position()
                },
                old(self).depth as int,
            ),
    {
        let next = match self.peek() {
            Some(c) => c,
            None => { return None; },
        };
        let mut found = false;
        let mut i: usize = 0;
        while i < options.len() && !found
            invariant
                i <= options.len(),
                found ==> options@.contains(next),
                !found ==> forall|j: int| 0 <= j < i ==> options@[j] != next,
            decreases options.len() - i + if found { 0int } else { 1int },
        {
            if options[i] == next {
                found = true;
            } else {
                i += 1;
            }
        }
        if found {
            self.read();
            Some(next)
        } else {
            None
        }
    }

    /// Reads whitespace characters up to the first character that is none.
    pub fn read_whitespace(&mut self)
        requires
            old(self).wf(),
        ensures
            final(self).wf(),
            final(self).continues(
                old(self),
                whitespace_end(old(self).source@, old(self).position()),
                old(self).depth as int,
            ),
    {
        loop
            invariant
                self.wf(),
                old(self).wf(),
                self.source == old(self).source,
                self.options == old(self).options,
                self.depth == old(self).depth,
                old(self).position() <= self.position(),
                whitespace_end(self.source@, self.position()) == whitespace_end(
                    old(self).source@,
                    old(self).position(),
                ),
            decreases self.source.len() - self.char_counter,
        {
            match self.peek() {
                Some(c) => {
                    if char_is_whitespace(c) {
                        self.read();
                    } else {
                        return ;
                    }
                },
                None => { return ; },
            }
        }
    }

    /// Reads whitespace and returns whether the reader contains another token.
    pub fn has_token(&mut self) -> (r: bool)
        requires
            old(self).wf(),
        ensures
            final(self).wf(),
            final(self).continues(
                old(self),
                whitespace_end(old(self).source@, old(self).position()),
                old(self).depth as int,
            ),
            r == (whitespace_end(old(self).source@, old(self).position()) < old(self).source.len()),
    {
        self.read_whitespace();
        proof {
            lemma_whitespace_end(old(self).source@, old(self).position());
        }
        self.peek().is_some()
    }
}

} // verus!
