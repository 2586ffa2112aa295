//! Whitespace in string values: trimming a quoteless string, and stripping the
//! indentation of a multi-quoted string.
use vstd::prelude::*;
use crate::char_classes::{char_is_newline, char_is_whitespace, is_newline, is_whitespace};
use crate::jsonh_reader::{is_char_at, whitespace_end};
use crate::text::copy_range;

verus! {

/// Whether `c` is whitespace inside a line: a whitespace character that is no
/// newline.
pub open spec fn is_blank(c: char) -> bool {
    is_whitespace(c) && !is_newline(c)
}

/// The position in `t` at which trailing whitespace starts, looking only at
/// the first `n` characters.
pub open spec fn trim_end_index(t: Seq<char>, n: int) -> int
    decreases n,
{
    if 0 < n <= t.len() && is_whitespace(t[n - 1]) {
        trim_end_index(t, n - 1)
    } else {
        n
    }
}

/// `t` without the whitespace at its start and at its end.
pub open spec fn trimmed(t: Seq<char>) -> Seq<char> {
    let start = whitespace_end(t, 0);
    let end = trim_end_index(t, t.len() as int);
    if start < end {
        t.subrange(start, end)
    } else {
        Seq::empty()
    }
}

/// The index of the first newline of `t` from `i` on, if only whitespace
/// stands before it.
pub open spec fn leading_newline(t: Seq<char>, i: int) -> Option<int>
    decreases t.len() - i,
{
    if 0 <= i < t.len() {
        if is_newline(t[i]) {
            Some(i)
        } else if is_whitespace(t[i]) {
            leading_newline(t, i + 1)
        } else {
            None
        }
    } else {
        None
    }
}

/// The index just after the newline at `i`, where a carriage return and the
/// line feed that follows it are one newline.
pub open spec fn after_newline(t: Seq<char>, i: int) -> int {
    if t[i] == '\r' && is_char_at(t, i + 1, '\n') {
        i + 2
    } else {
        i + 1
    }
}

/// The number of blank characters that end the first `n` characters of `t`.
pub open spec fn trailing_blanks(t: Seq<char>, n: int) -> nat
    decreases n,
{
    if 0 < n <= t.len() && is_blank(t[n - 1]) {
        1 + trailing_blanks(t, n - 1)
    } else {
        0
    }
}

/// The index at which the last newline of `t` starts, given that the newline
/// ends just before `end`: a line feed that follows a carriage return starts
/// with the carriage return.
pub open spec fn last_newline_start(t: Seq<char>, end: int) -> int {
    if t[end - 1] == '\n' && is_char_at(t, end - 2, '\r') {
        end - 2
    } else {
        end - 1
    }
}

/// The text from `i` on with the indentation of each line cut by up to
/// `width` blank characters. `line_start` says whether only removed
/// characters stand between the last newline and `i`, of which there are
/// `removed`.
pub open spec fn strip_line_indent(
    t: Seq<char>,
    width: nat,
    i: int,
    line_start: bool,
    removed: nat,
) -> Seq<char>
    decreases t.len() - i,
{
    if 0 <= i < t.len() {
        if is_newline(t[i]) {
            seq![t[i]] + strip_line_indent(t, width, i + 1, true, 0)
        } else if is_whitespace(t[i]) && line_start && removed < width {
            strip_line_indent(t, width, i + 1, true, removed + 1)
        } else {
            seq![t[i]] + strip_line_indent(t, width, i + 1, false, 0)
        }
    } else {
        Seq::empty()
    }
}

/// The value of a multi-quoted string with the raw content `t`.
///
/// If `t` starts with whitespace up to a first newline, and ends with a last
/// newline followed by blank characters only, then both are dropped, and each
/// line in between loses up to as many leading blank characters as followed
/// the last newline. Otherwise the value is `t`.
pub open spec fn strip_indent(t: Seq<char>) -> Seq<char> {
    match leading_newline(t, 0) {
        None => t,
        Some(first) => {
            let width = trailing_blanks(t, t.len() as int);
            let end = t.len() - width;
            if end > 0 && is_newline(t[end - 1]) {
                let last = last_newline_start(t, end);
                let start = after_newline(t, first);
                let body = if start < last {
                    t.subrange(start, last)
                } else {
                    Seq::empty()
                };
                if width > 0 {
                    strip_line_indent(body, width, 0, true, 0)
                } else {
                    body
                }
            } else {
                t
            }
        },
    }
}

/// Returns `chars` without the whitespace at its start and at its end.
pub fn trim_whitespace(chars: &Vec<char>) -> (r: Vec<char>)
    ensures
        r@ == trimmed(chars@),
{
    let mut start: usize = 0;
    while start < chars.len() && char_is_whitespace(chars[start])
        invariant
            start <= chars.len(),
            whitespace_end(chars@, start as int) == whitespace_end(chars@, 0),
        decreases chars.len() - start,
    {
        start += 1;
    }
    let mut end: usize = chars.len();
    while end > 0 && char_is_whitespace(chars[end - 1])
        invariant
            end <= chars.len(),
            trim_end_index(chars@, end as int) == trim_end_index(chars@, chars.len() as int),
        decreases end,
    {
        end -= 1;
    }
    if start < end {
        copy_range(chars, start, end)
    } else {
        Vec::new()
    }
}

/// Returns `body` with the indentation of each line cut by up to `width`
/// blank characters.
pub fn strip_lines(body: &Vec<char>, width: usize) -> (r: Vec<char>)
    ensures
        r@ == strip_line_indent(body@, width as nat, 0, true, 0),
{
    let mut r: Vec<char> = Vec::new();
    let mut line_start = true;
    let mut removed: usize = 0;
    let mut i: usize = 0;
    while i < body.len()
        invariant
            i <= body.len(),
            removed <= width,
            r@ + strip_line_indent(body@, width as nat, i as int, line_start, removed as nat)
                == strip_line_indent(body@, width as nat, 0, true, 0),
        decreases body.len() - i,
    {
        let c = body[i];
        let ghost before = r@;
        let ghost rest_before = strip_line_indent(
            body@,
            width as nat,
            i as int,
            line_start,
            removed as nat,
        );
        if char_is_newline(c) {
            r.push(c);
            line_start = true;
            removed = 0;
        } else if char_is_whitespace(c) && line_start && removed < width {
            removed += 1;
        } else {
            r.push(c);
            line_start = false;
            removed = 0;
        }
        i += 1;
        proof {
            let rest = strip_line_indent(
                body@,
                width as nat,
                i as int,
                line_start,
                removed as nat,
            );
            assert(r@ + rest =~= before + rest_before);
        }
    }
    assert(r@ + Seq::<char>::empty() =~= r@);
    r
}

/// Returns the value of a multi-quoted string with the raw content `chars`:
/// the content without its first and last line and without the indentation
/// that the last line shows, where the content has that shape.
pub fn strip_multi_quoted_indent(chars: Vec<char>) -> (r: Vec<char>)
    ensures
        r@ == strip_indent(chars@),
{
    // Find the first newline, which only whitespace may precede
    let mut first: usize = 0;
    let mut found = false;
    while first < chars.len() && !found
        invariant
            first <= chars.len(),
            found ==> first < chars.len() && leading_newline(chars@, 0) == Some(first as int),
            !found ==> leading_newline(chars@, first as int) == leading_newline(chars@, 0),
        decreases chars.len() - first + if found { 0int } else { 1int },
    {
        if char_is_newline(chars[first]) {
            found = true;
        } else if char_is_whitespace(chars[first]) {
            first += 1;
        } else {
            return chars;
        }
    }
    if !found {
        return chars;
    }
    // Count the blank characters at the end
    let mut end: usize = chars.len();
    while end > 0 && char_is_whitespace(chars[end - 1]) && !char_is_newline(chars[end - 1])
        invariant
            end <= chars.len(),
            trailing_blanks(chars@, end as int) + (chars.len() - end) == trailing_blanks(
                chars@,
                chars.len() as int,
            ),
        decreases end,
    {
        end -= 1;
    }
    let width: usize = chars.len() - end;
    if end == 0 || !char_is_newline(chars[end - 1]) {
        return chars;
    }
    // Drop the last newline with what follows it, and the first with what precedes it
    let last: usize = if chars[end - 1] == '\n' && end >= 2 && chars[end - 2] == '\r' {
        end - 2
    } else {
        end - 1
    };
    let start: usize = if chars[first] == '\r' && first + 1 < chars.len() && chars[first + 1]
        == '\n' {
        first + 2
    } else {
        first + 1
    };
    let body = if start < last {
        copy_range(&chars, start, last)
    } else {
        Vec::new()
    };
    // Cut the indentation of each line
    if width > 0 {
        strip_lines(&body, width)
    } else {
        body
    }
}

} // verus!
