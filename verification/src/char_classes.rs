//! The classes of characters that the reader tells apart: newlines,
//! whitespace, characters reserved in quoteless strings, digits.
use vstd::prelude::*;

verus! {

/// Whether `c` is one of the characters that end a line: line feed, carriage
/// return, line separator, paragraph separator.
pub open spec fn is_newline(c: char) -> bool {
    c == '\n' || c == '\r' || c == '\u{2028}' || c == '\u{2029}'
}

/// Whether `c` is a whitespace character: the Unicode space, line and
/// paragraph separators, the controls U+0009 to U+000D, and U+0085.
pub open spec fn is_whitespace(c: char) -> bool {
    ('\u{0009}' <= c && c <= '\u{000D}') || c == '\u{0020}' || c == '\u{0085}' || c == '\u{00A0}'
        || c == '\u{1680}' || ('\u{2000}' <= c && c <= '\u{200A}') || c == '\u{2028}' || c
        == '\u{2029}' || c == '\u{202F}' || c == '\u{205F}' || c == '\u{3000}'
}

/// Whether `c` cannot stand unescaped in a quoteless string. Version 2 adds
/// `@` to the reserved characters of version 1.
pub open spec fn is_reserved(c: char, v2: bool) -> bool {
    c == '\\' || c == ',' || c == ':' || c == '[' || c == ']' || c == '{' || c == '}' || c == '/'
        || c == '#' || c == '"' || c == '\'' || (v2 && c == '@')
}

/// The value of `c` as a hexadecimal digit, in either case; `None` if it is
/// no such digit.
pub open spec fn hex_digit_value(c: char) -> Option<nat> {
    if '0' <= c && c <= '9' {
        Some((c as nat - '0' as nat) as nat)
    } else if 'a' <= c && c <= 'f' {
        Some((c as nat - 'a' as nat + 10) as nat)
    } else if 'A' <= c && c <= 'F' {
        Some((c as nat - 'A' as nat + 10) as nat)
    } else {
        None
    }
}

/// Whether `c` is a digit of the number base `base`, where letters count in
/// either case.
pub open spec fn is_base_digit(c: char, base: nat) -> bool {
    match hex_digit_value(c) {
        Some(v) => v < base,
        None => false,
    }
}

/// Returns whether `c` ends a line.
pub fn char_is_newline(c: char) -> (r: bool)
    ensures
        r == is_newline(c),
{
    c == '\n' || c == '\r' || c == '\u{2028}' || c == '\u{2029}'
}

/// Returns whether `c` is a whitespace character.
pub fn char_is_whitespace(c: char) -> (r: bool)
    ensures
        r == is_whitespace(c),
{
    ('\u{0009}' <= c && c <= '\u{000D}') || c == '\u{0020}' || c == '\u{0085}' || c == '\u{00A0}'
        || c == '\u{1680}' || ('\u{2000}' <= c && c <= '\u{200A}') || c == '\u{2028}' || c
        == '\u{2029}' || c == '\u{202F}' || c == '\u{205F}' || c == '\u{3000}'
}

/// Returns whether `c` is reserved in quoteless strings.
pub fn char_is_reserved(c: char, v2: bool) -> (r: bool)
    ensures
        r == is_reserved(c, v2),
{
    c == '\\' || c == ',' || c == ':' || c == '[' || c == ']' || c == '{' || c == '}' || c == '/'
        || c == '#' || c == '"' || c == '\'' || (v2 && c == '@')
}

/// Returns the value of `c` as a hexadecimal digit, if it is one.
pub fn char_hex_digit_value(c: char) -> (r: Option<u32>)
    ensures
        match r {
            Some(v) => hex_digit_value(c) == Some(v as nat) && v < 16,
            None => hex_digit_value(c) is None,
        },
{
    if '0' <= c && c <= '9' {
        Some(c as u32 - '0' as u32)
    } else if 'a' <= c && c <= 'f' {
        Some(c as u32 - 'a' as u32 + 10)
    } else if 'A' <= c && c <= 'F' {
        Some(c as u32 - 'A' as u32 + 10)
    } else {
        None
    }
}

/// Returns whether `c` is a digit of the base `base`.
pub fn char_is_base_digit(c: char, base: u32) -> (r: bool)
    ensures
        r == is_base_digit(c, base as nat),
{
    match char_hex_digit_value(c) {
        Some(v) => v < base,
        None => false,
    }
}

} // verus!
