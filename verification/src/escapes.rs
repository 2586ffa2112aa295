//! Escape sequences in strings, with surrogate pairs joined into one
//! character.
use vstd::prelude::*;
use crate::char_classes::{char_hex_digit_value, char_is_newline, hex_digit_value, is_newline};
use crate::jsonh_error::JsonhError;
use crate::jsonh_reader::{char_at, is_char_at, JsonhReader};

verus! {

/// `char::from_u32` returns the character with the given code point, and
/// `None` exactly where the number is a surrogate or lies beyond U+10FFFF.
pub assume_specification[ char::from_u32 ](i: u32) -> (r: Option<char>)
    ensures
        r == code_point_char(i as nat),
;

/// What reading a piece of the input gives: the value read or the error, and
/// the position at which reading stopped.
pub struct Scanned<T> {
    pub result: Result<T, JsonhError>,
    pub pos: int,
}

/// The pending high surrogate as a natural number.
pub open spec fn surrogate_view(high_surrogate: Option<u32>) -> Option<nat> {
    match high_surrogate {
        Some(high) => Some(high as nat),
        None => None,
    }
}

/// Whether `code_point` lies in the range of UTF-16 high surrogates.
pub open spec fn is_high_surrogate(code_point: nat) -> bool {
    0xD800 <= code_point <= 0xDBFF
}

/// Whether `code_point` lies in the range of UTF-16 low surrogates.
pub open spec fn is_low_surrogate(code_point: nat) -> bool {
    0xDC00 <= code_point <= 0xDFFF
}

/// The code point that a UTF-16 surrogate pair stands for: ten bits from each
/// half, above U+10000.
pub open spec fn surrogates_to_code_point(high: nat, low: nat) -> Result<nat, JsonhError> {
    if !is_high_surrogate(high) {
        Err(JsonhError::HighSurrogateOutOfRange)
    } else if !is_low_surrogate(low) {
        Err(JsonhError::LowSurrogateOutOfRange)
    } else {
        Ok((0x10000 + (high - 0xD800) * 0x400 + (low - 0xDC00)) as nat)
    }
}

/// The character with code point `code_point`, if it is a Unicode scalar value.
pub open spec fn code_point_char(code_point: nat) -> Option<char> {
    if code_point <= 0xD7FF || (0xE000 <= code_point <= 0x10FFFF) {
        Some(code_point as char)
    } else {
        None
    }
}

/// The character that a hex escape with value `code_point` decodes to.
pub open spec fn decode_code_point(code_point: nat) -> Result<Option<char>, JsonhError> {
    match code_point_char(code_point) {
        Some(c) => Ok(Some(c)),
        None => Err(JsonhError::InvalidHexEscape),
    }
}

/// The character that the escape letter `c` stands for, if `c` is one of the
/// letters with a fixed meaning.
pub open spec fn simple_escape(c: char) -> Option<char> {
    if c == '\\' {
        Some('\\')
    } else if c == 'b' {
        Some('\u{08}')
    } else if c == 'f' {
        Some('\u{0C}')
    } else if c == 'n' {
        Some('\n')
    } else if c == 'r' {
        Some('\r')
    } else if c == 't' {
        Some('\t')
    } else if c == 'v' {
        Some('\u{0B}')
    } else if c == '0' {
        Some('\0')
    } else if c == 'a' {
        Some('\u{07}')
    } else if c == 'e' {
        Some('\u{1B}')
    } else {
        None
    }
}

/// The number of hex digits that the escape letter `c` announces.
pub open spec fn hex_escape_length(c: char) -> Option<nat> {
    if c == 'u' {
        Some(4)
    } else if c == 'x' {
        Some(2)
    } else if c == 'U' {
        Some(8)
    } else {
        None
    }
}

/// Sixteen to the power `n`.
pub open spec fn pow16(n: nat) -> nat
    decreases n,
{
    if n == 0 {
        1
    } else {
        16 * pow16((n - 1) as nat)
    }
}

/// Reading `count` hex digits from `pos`, most significant first, on top of
/// the value `acc`. A character that is no hex digit, or the end of the input,
/// is an error; the character is read all the same.
pub open spec fn spec_read_hex_sequence(s: Seq<char>, pos: int, count: nat, acc: nat) -> Scanned<
    nat,
>
    decreases count,
{
    if count == 0 {
        Scanned { result: Ok(acc), pos }
    } else {
        match char_at(s, pos) {
            Some(c) => match hex_digit_value(c) {
                Some(d) => spec_read_hex_sequence(s, pos + 1, (count - 1) as nat, acc * 16 + d),
                None => Scanned { result: Err(JsonhError::IncorrectHexDigits), pos: pos + 1 },
            },
            None => Scanned { result: Err(JsonhError::IncorrectHexDigits), pos },
        }
    }
}

/// Reading the digits of a hex escape from `pos` and decoding them. With a
/// pending high surrogate the digits must give a low surrogate, and the pair
/// is one character. Without, a high surrogate that is followed by `\` takes
/// the escape that follows as its second half.
pub open spec fn spec_read_hex_escape_sequence(
    s: Seq<char>,
    pos: int,
    count: nat,
    high_surrogate: Option<nat>,
) -> Scanned<Option<char>>
    decreases
            (if high_surrogate is None {
                1nat
            } else {
                0nat
            }),
            0nat,
{
    let digits = spec_read_hex_sequence(s, pos, count, 0);
    match digits.result {
        Err(e) => Scanned { result: Err(e), pos: digits.pos },
        Ok(code_point) => match high_surrogate {
            Some(high) => match surrogates_to_code_point(high, code_point) {
                Err(e) => Scanned { result: Err(e), pos: digits.pos },
                Ok(combined) => Scanned { result: decode_code_point(combined), pos: digits.pos },
            },
            None => if is_high_surrogate(code_point) && is_char_at(s, digits.pos, '\\') {
                spec_read_escape_sequence(s, digits.pos + 1, Some(code_point))
            } else {
                Scanned { result: decode_code_point(code_point), pos: digits.pos }
            },
        },
    }
}

/// Reading an escape sequence whose `\` stood just before `pos`. The result
/// is the character that the escape stands for, or no character where the
/// escape continues the line: `\` before a newline, where a line feed that
/// follows a carriage return belongs to the newline.
pub open spec fn spec_read_escape_sequence(
    s: Seq<char>,
    pos: int,
    high_surrogate: Option<nat>,
) -> Scanned<Option<char>>
    decreases
            (if high_surrogate is None {
                1nat
            } else {
                0nat
            }),
            1nat,
{
    match char_at(s, pos) {
        None => Scanned { result: Err(JsonhError::ExpectedEscapeSequence), pos },
        Some(c) => {
            if high_surrogate is Some && hex_escape_length(c) is None {
                Scanned { result: Err(JsonhError::ExpectedLowSurrogate), pos: pos + 1 }
            } else if simple_escape(c) is Some {
                Scanned { result: Ok(simple_escape(c)), pos: pos + 1 }
            } else if hex_escape_length(c) is Some {
                spec_read_hex_escape_sequence(
                    s,
                    pos + 1,
                    hex_escape_length(c)->0,
                    high_surrogate,
                )
            } else if is_newline(c) {
                if c == '\r' && is_char_at(s, pos + 1, '\n') {
                    Scanned { result: Ok(None), pos: pos + 2 }
                } else {
                    Scanned { result: Ok(None), pos: pos + 1 }
                }
            } else {
                Scanned { result: Ok(Some(c)), pos: pos + 1 }
            }
        },
    }
}

/// Reading hex digits moves forward and stays inside the input; all digits
/// read, the position has moved by their number.
pub proof fn lemma_read_hex_sequence(s: Seq<char>, pos: int, count: nat, acc: nat)
    requires
        0 <= pos <= s.len(),
    ensures
        pos <= spec_read_hex_sequence(s, pos, count, acc).pos <= s.len(),
        spec_read_hex_sequence(s, pos, count, acc).result is Ok ==> spec_read_hex_sequence(
            s,
            pos,
            count,
            acc,
        ).pos == pos + count,
    decreases count,
{
    if count > 0 {
        match char_at(s, pos) {
            Some(c) => match hex_digit_value(c) {
                Some(d) => {
                    lemma_read_hex_sequence(s, pos + 1, (count - 1) as nat, acc * 16 + d);
                },
                None => {},
            },
            None => {},
        }
    }
}

/// Up to eight hex digits give a value of at most 32 bits.
pub proof fn lemma_pow16_bound(n: nat)
    requires
        n <= 8,
    ensures
        1 <= pow16(n) <= 0x1_0000_0000,
        n < 8 ==> pow16(n) <= 0x1000_0000,
{
    reveal_with_fuel(pow16, 9);
}

/// Reading an escape sequence moves forward and stays inside the input; a
/// decoded escape has read at least one character.
pub proof fn lemma_read_escape_sequence(s: Seq<char>, pos: int, high_surrogate: Option<nat>)
    requires
        0 <= pos <= s.len(),
    ensures
        pos <= spec_read_escape_sequence(s, pos, high_surrogate).pos <= s.len(),
        spec_read_escape_sequence(s, pos, high_surrogate).result is Ok
            ==> spec_read_escape_sequence(s, pos, high_surrogate).pos > pos,
    decreases
            (if high_surrogate is None {
                1nat
            } else {
                0nat
            }),
{
    match char_at(s, pos) {
        None => {},
        Some(c) => {
            if hex_escape_length(c) is Some && !(high_surrogate is Some && hex_escape_length(c)
                is None) && simple_escape(c) is None {
                let count = hex_escape_length(c)->0;
                lemma_read_hex_sequence(s, pos + 1, count, 0);
                let digits = spec_read_hex_sequence(s, pos + 1, count, 0);
                if digits.result is Ok && high_surrogate is None && is_high_surrogate(
                    digits.result->Ok_0,
                ) && is_char_at(s, digits.pos, '\\') {
                    lemma_read_escape_sequence(s, digits.pos + 1, Some(digits.result->Ok_0));
                }
            }
        },
    }
}

impl JsonhReader {
    /// Returns whether `code_point` is a UTF-16 high surrogate.
    pub fn is_utf16_high_surrogate(code_point: u32) -> (r: bool)
        ensures
            r == is_high_surrogate(code_point as nat),
    {
        code_point >= 0xD800 && code_point <= 0xDBFF
    }

    /// Returns whether `code_point` is a UTF-16 low surrogate.
    pub fn is_utf16_low_surrogate(code_point: u32) -> (r: bool)
        ensures
            r == is_low_surrogate(code_point as nat),
    {
        code_point >= 0xDC00 && code_point <= 0xDFFF
    }

    /// Combines a UTF-16 surrogate pair into the code point it stands for.
    pub fn utf16_surrogates_to_code_point(high_surrogate: u32, low_surrogate: u32) -> (r: Result<
        u32,
        JsonhError,
    >)
        ensures
            match r {
                Ok(v) => surrogates_to_code_point(high_surrogate as nat, low_surrogate as nat)
                    == Ok::<nat, JsonhError>(v as nat),
                Err(e) => surrogates_to_code_point(high_surrogate as nat, low_surrogate as nat)
                    == Err::<nat, JsonhError>(e),
            },
    {
        if !Self::is_utf16_high_surrogate(high_surrogate) {
            return Err(JsonhError::HighSurrogateOutOfRange);
        }
        if !Self::is_utf16_low_surrogate(low_surrogate) {
            return Err(JsonhError::LowSurrogateOutOfRange);
        }
        Ok(0x10000 + (high_surrogate - 0xD800) * 0x400 + (low_surrogate - 0xDC00))
    }

    /// Reads `length` hex digits and returns their value.
    pub fn read_hex_sequence(&mut self, length: usize) -> (r: Result<u32, JsonhError>)
        requires
            old(self).wf(),
            length <= 8,
        ensures
            final(self).wf(),
            ({
                let out = spec_read_hex_sequence(
                    old(self).source@,
                    old(self).position(),
                    length as nat,
                    0,
                );
                &&& final(self).continues(old(self), out.pos, old(self).depth as int)
                &&& match r {
                    Ok(v) => out.result == Ok::<nat, JsonhError>(v as nat),
                    Err(e) => out.result == Err::<nat, JsonhError>(e),
                }
            }),
    {
        let mut value: u32 = 0;
        let mut index: usize = 0;
        while index < length
            invariant
                self.wf(),
                self.source == old(self).source,
                self.options == old(self).options,
                self.depth == old(self).depth,
                index <= length <= 8,
                (value as nat) < pow16(index as nat),
                spec_read_hex_sequence(
                    self.source@,
                    self.position(),
                    (length - index) as nat,
                    value as nat,
                ) == spec_read_hex_sequence(
                    old(self).source@,
                    old(self).position(),
                    length as nat,
                    0,
                ),
            decreases length - index,
        {
            proof {
                lemma_pow16_bound(index as nat);
            }
            let digit = match self.read() {
                Some(c) => char_hex_digit_value(c),
                None => None,
            };
            match digit {
                Some(d) => {
                    value = value * 16 + d;
                },
                None => {
                    return Err(JsonhError::IncorrectHexDigits);
                },
            }
            index += 1;
        }
        Ok(value)
    }

    /// Reads an escape sequence whose `\` has been read, and returns the
    /// character it stands for, or `None` for an escaped newline. With
    /// `high_surrogate` the escape is the second half of a surrogate pair.
    pub fn read_escape_sequence(&mut self, high_surrogate: Option<u32>) -> (r: Result<
        Option<char>,
        JsonhError,
    >)
        requires
            old(self).wf(),
        ensures
            final(self).wf(),
            ({
                let out = spec_read_escape_sequence(
                    old(self).source@,
                    old(self).position(),
                    surrogate_view(high_surrogate),
                );
                &&& final(self).continues(old(self), out.pos, old(self).depth as int)
                &&& r == out.result
            }),
        decreases
                (if high_surrogate is None {
                    1nat
                } else {
                    0nat
                }),
                1nat,
    {
        let escape_char = match self.read() {
            Some(c) => c,
            None => { return Err(JsonhError::ExpectedEscapeSequence); },
        };
        // Ensure high surrogates are completed
        if high_surrogate.is_some() && !(escape_char == 'u' || escape_char == 'x' || escape_char
            == 'U') {
            return Err(JsonhError::ExpectedLowSurrogate);
        }
        if escape_char == '\\' {
            Ok(Some('\\'))
        } else if escape_char == 'b' {
            Ok(Some('\u{08}'))
        } else if escape_char == 'f' {
            Ok(Some('\u{0C}'))
        } else if escape_char == 'n' {
            Ok(Some('\n'))
        } else if escape_char == 'r' {
            Ok(Some('\r'))
        } else if escape_char == 't' {
            Ok(Some('\t'))
        } else if escape_char == 'v' {
            Ok(Some('\u{0B}'))
        } else if escape_char == '0' {
            Ok(Some('\0'))
        } else if escape_char == 'a' {
            Ok(Some('\u{07}'))
        } else if escape_char == 'e' {
            Ok(Some('\u{1B}'))
        } else if escape_char == 'u' {
            self.read_hex_escape_sequence(4, high_surrogate)
        } else if escape_char == 'x' {
            self.read_hex_escape_sequence(2, high_surrogate)
        } else if escape_char == 'U' {
            self.read_hex_escape_sequence(8, high_surrogate)
        } else if char_is_newline(escape_char) {
            // Join CR LF
            if escape_char == '\r' {
                self.read_one('\n');
            }
            Ok(None)
        } else {
            Ok(Some(escape_char))
        }
    }

    /// Reads the `length` hex digits of a hex escape and decodes them, joining
    /// a surrogate pair into one character.
    pub fn read_hex_escape_sequence(&mut self, length: usize, high_surrogate: Option<u32>) -> (r:
        Result<Option<char>, JsonhError>)
        requires
            old(self).wf(),
            length <= 8,
        ensures
            final(self).wf(),
            ({
                let out = spec_read_hex_escape_sequence(
                    old(self).source@,
                    old(self).position(),
                    length as nat,
                    surrogate_view(high_surrogate),
                );
                &&& final(self).continues(old(self), out.pos, old(self).depth as int)
                &&& r == out.result
            }),
        decreases
                (if high_surrogate is None {
                    1nat
                } else {
                    0nat
                }),
                0nat,
    {
        let code_point = match self.read_hex_sequence(length) {
            Ok(code_point) => code_point,
            Err(err) => { return Err(err); },
        };
        match high_surrogate {
            // Low surrogate
            Some(high) => {
                let combined = match Self::utf16_surrogates_to_code_point(high, code_point) {
                    Ok(combined) => combined,
                    Err(err) => { return Err(err); },
                };
                match char::from_u32(combined) {
                    Some(combined_char) => Ok(Some(combined_char)),
                    None => Err(JsonhError::InvalidHexEscape),
                }
            },
            None => {
                // High surrogate followed by low surrogate
                if Self::is_utf16_high_surrogate(code_point) && self.read_one('\\') {
                    self.read_escape_sequence(Some(code_point))
                } else {
                    match char::from_u32(code_point) {
                        Some(code_point_char) => Ok(Some(code_point_char)),
                        None => Err(JsonhError::InvalidHexEscape),
                    }
                }
            },
        }
    }
}

} // verus!