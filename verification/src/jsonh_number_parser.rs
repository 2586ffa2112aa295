//! Taking number literals apart: sign, base, mantissa and exponent.
use vstd::prelude::*;
use crate::char_classes::{char_hex_digit_value, hex_digit_value, is_base_digit};
use crate::jsonh_error::JsonhError;
use crate::text::{chars_of, copy_range, string_of};

verus! {

/// The mathematical value of a `JsonhNumberPart`.
pub enum JsonhNumberPartView {
    Decimal(Seq<char>),
    Digits { negative: bool, whole: Seq<u8>, fraction: Seq<u8> },
}

/// The mathematical value of a `JsonhNumber`.
pub struct JsonhNumberView {
    pub negative: bool,
    pub base: nat,
    pub mantissa: JsonhNumberPartView,
    pub exponent: Option<JsonhNumberPartView>,
}

/// The mantissa or the exponent of a number literal.
#[derive(Clone, Debug, PartialEq, Eq)]
pub enum JsonhNumberPart {
    /// A part in base ten: its characters, which are left to the platform's
    /// parser of decimal numbers.
    Decimal(String),
    /// A part in another base: its sign, and the values of the digits before
    /// and after the dot, most significant first.
    Digits { negative: bool, whole: Vec<u8>, fraction: Vec<u8> },
}

/// A number literal taken apart: its value is the mantissa times ten to the
/// power of the exponent, negated where `negative` holds. The digits of both
/// parts are digits of the base `base`.
#[derive(Clone, Debug, PartialEq, Eq)]
pub struct JsonhNumber {
    pub negative: bool,
    pub base: u32,
    pub mantissa: JsonhNumberPart,
    pub exponent: Option<JsonhNumberPart>,
}

impl View for JsonhNumberPart {
    type V = JsonhNumberPartView;

    open spec fn view(&self) -> JsonhNumberPartView {
        match self {
            JsonhNumberPart::Decimal(text) => JsonhNumberPartView::Decimal(text@),
            JsonhNumberPart::Digits { negative, whole, fraction } => JsonhNumberPartView::Digits {
                negative: *negative,
                whole: whole@,
                fraction: fraction@,
            },
        }
    }
}

impl View for JsonhNumber {
    type V = JsonhNumberView;

    open spec fn view(&self) -> JsonhNumberView {
        JsonhNumberView {
            negative: self.negative,
            base: self.base as nat,
            mantissa: self.mantissa@,
            exponent: match self.exponent {
                Some(part) => Some(part@),
                None => None,
            },
        }
    }
}

/// `t` without its underscores.
pub open spec fn without_underscores(t: Seq<char>) -> Seq<char>
    decreases t.len(),
{
    if t.len() == 0 {
        t
    } else if t.last() == '_' {
        without_underscores(t.drop_last())
    } else {
        without_underscores(t.drop_last()).push(t.last())
    }
}

/// Whether `t` starts with the character `c`.
pub open spec fn starts_with_char(t: Seq<char>, c: char) -> bool {
    t.len() > 0 && t[0] == c
}

/// The base that the first two characters of `t` announce: sixteen after
/// `0x`, two after `0b`, eight after `0o`, and else ten.
pub open spec fn base_of_prefix(t: Seq<char>) -> nat {
    if t.len() >= 2 && t[0] == '0' && t[1] == 'x' {
        16
    } else if t.len() >= 2 && t[0] == '0' && t[1] == 'b' {
        2
    } else if t.len() >= 2 && t[0] == '0' && t[1] == 'o' {
        8
    } else {
        10
    }
}

/// Whether `c` marks an exponent.
pub open spec fn is_exponent_char(c: char) -> bool {
    c == 'e' || c == 'E'
}

/// Whether `c` is a sign.
pub open spec fn is_sign_char(c: char) -> bool {
    c == '-' || c == '+'
}

/// Whether an exponent of a number in base sixteen starts at `i`: there `e`
/// is a digit, and marks an exponent only where a sign follows it.
pub open spec fn is_hex_exponent_at(t: Seq<char>, i: int) -> bool {
    0 <= i && i + 1 < t.len() && is_exponent_char(t[i]) && is_sign_char(t[i + 1])
}

/// The first index from `from` on at which an exponent of a number in base
/// sixteen starts, or the length of `t` if there is none.
pub open spec fn hex_exponent_index(t: Seq<char>, from: int) -> int
    decreases t.len() - from,
{
    if 0 <= from < t.len() && !is_hex_exponent_at(t, from) {
        hex_exponent_index(t, from + 1)
    } else {
        from
    }
}

/// One more than the index of the last exponent marker among the first `n`
/// characters of `t`, or zero if there is none.
pub open spec fn last_exponent_end(t: Seq<char>, n: int) -> int
    decreases n,
{
    if 0 < n <= t.len() && !is_exponent_char(t[n - 1]) {
        last_exponent_end(t, n - 1)
    } else {
        n
    }
}

/// The index at which the exponent marker splits the digits `t` of a number
/// in the base `base`, if an exponent is there.
pub open spec fn exponent_index(t: Seq<char>, base: nat) -> Option<int> {
    if base == 16 {
        let index = hex_exponent_index(t, 0);
        if index < t.len() {
            Some(index)
        } else {
            None
        }
    } else {
        let end = last_exponent_end(t, t.len() as int);
        if end > 0 {
            Some(end - 1)
        } else {
            None
        }
    }
}

/// Whether all characters of `t` are digits of the base `base`.
pub open spec fn all_base_digits(t: Seq<char>, base: nat) -> bool {
    forall|i: int| 0 <= i < t.len() ==> is_base_digit(#[trigger] t[i], base)
}

/// The values of the digits `t`.
pub open spec fn digit_values(t: Seq<char>) -> Seq<u8> {
    Seq::new(
        t.len(),
        |i: int|
            match hex_digit_value(t[i]) {
                Some(v) => v as u8,
                None => 0u8,
            },
    )
}

/// The index of the first dot of `t` from `from` on, or the length of `t`.
pub open spec fn dot_index(t: Seq<char>, from: int) -> int
    decreases t.len() - from,
{
    if 0 <= from < t.len() && t[from] != '.' {
        dot_index(t, from + 1)
    } else {
        from
    }
}

/// `t` without a sign at its start.
pub open spec fn unsigned_part(t: Seq<char>) -> Seq<char> {
    if starts_with_char(t, '-') || starts_with_char(t, '+') {
        t.subrange(1, t.len() as int)
    } else {
        t
    }
}

/// The mantissa or exponent with the characters `t` in the base `base`. In
/// base ten the characters are kept as they are. In another base a sign may
/// start the part, a dot parts the whole digits from those of the fraction,
/// and any other character that is no digit of the base is an error.
pub open spec fn spec_parse_fractional_number(t: Seq<char>, base: nat) -> Result<
    JsonhNumberPartView,
    JsonhError,
> {
    if base == 10 {
        Ok(JsonhNumberPartView::Decimal(t))
    } else {
        let dot = dot_index(t, 0);
        let whole = unsigned_part(t.subrange(0, dot));
        let fraction = if dot < t.len() {
            t.subrange(dot + 1, t.len() as int)
        } else {
            Seq::empty()
        };
        if all_base_digits(whole, base) && all_base_digits(fraction, base) {
            Ok(
                JsonhNumberPartView::Digits {
                    negative: starts_with_char(t.subrange(0, dot), '-'),
                    whole: digit_values(whole),
                    fraction: digit_values(fraction),
                },
            )
        } else {
            Err(JsonhError::InvalidDigit)
        }
    }
}

/// The number literal `literal` taken apart: underscores are dropped, then a
/// sign, then a base specifier `0x`, `0b` or `0o`; the rest is the mantissa,
/// and after an exponent marker the exponent.
pub open spec fn spec_parse(literal: Seq<char>) -> Result<JsonhNumberView, JsonhError> {
    let stripped = without_underscores(literal);
    let unsigned = unsigned_part(stripped);
    let base = base_of_prefix(unsigned);
    let digits = if base == 10 {
        unsigned
    } else {
        unsigned.subrange(2, unsigned.len() as int)
    };
    let (mantissa, exponent) = match exponent_index(digits, base) {
        Some(index) => (
            spec_parse_fractional_number(digits.subrange(0, index), base),
            Some(
                spec_parse_fractional_number(
                    digits.subrange(index + 1, digits.len() as int),
                    base,
                ),
            ),
        ),
        None => (spec_parse_fractional_number(digits, base), None),
    };
    match (mantissa, exponent) {
        (Err(e), _) => Err(e),
        (Ok(_), Some(Err(e))) => Err(e),
        (Ok(m), Some(Ok(x))) => Ok(
            JsonhNumberView {
                negative: starts_with_char(stripped, '-'),
                base,
                mantissa: m,
                exponent: Some(x),
            },
        ),
        (Ok(m), None) => Ok(
            JsonhNumberView {
                negative: starts_with_char(stripped, '-'),
                base,
                mantissa: m,
                exponent: None,
            },
        ),
    }
}

/// Methods for parsing JSONH numbers.
///
/// Unlike `JsonhReader::read_element()`, minimal validation is done here.
/// Ensure the input is valid.
pub struct JsonhNumberParser {}

impl JsonhNumberParser {
    /// Takes a JSONH number apart: sign, base, mantissa and exponent. The
    /// value of `+5.2e3.0`, say, is 5.2 times ten to the power of 3.0.
    pub fn parse(jsonh_number: String) -> (r: Result<JsonhNumber, JsonhError>)
        ensures
            match spec_parse(jsonh_number@) {
                Ok(number) => r is Ok && r->Ok_0@ == number,
                Err(e) => r is Err && r->Err_0 == e,
            },
    {
        let literal = chars_of(jsonh_number.as_str());
        // Remove underscores
        let mut stripped: Vec<char> = Vec::new();
        let mut i: usize = 0;
        while i < literal.len()
            invariant
                i <= literal.len(),
                stripped@ == without_underscores(literal@.take(i as int)),
            decreases literal.len() - i,
        {
            if literal[i] != '_' {
                stripped.push(literal[i]);
            }
            i += 1;
            assert(literal@.take(i as int).drop_last() =~= literal@.take(i as int - 1));
        }
        assert(literal@.take(literal.len() as int) =~= literal@);
        // Get sign
        let negative = stripped.len() > 0 && stripped[0] == '-';
        let mut start: usize = 0;
        if stripped.len() > 0 && (stripped[0] == '-' || stripped[0] == '+') {
            start = 1;
        }
        let ghost unsigned = unsigned_part(stripped@);
        assert(unsigned =~= stripped@.subrange(start as int, stripped.len() as int));
        // Get base
        let mut base: u32 = 10;
        if stripped.len() - start >= 2 && stripped[start] == '0' {
            if stripped[start + 1] == 'x' {
                base = 16;
            } else if stripped[start + 1] == 'b' {
                base = 2;
            } else if stripped[start + 1] == 'o' {
                base = 8;
            }
        }
        if base != 10 {
            start = start + 2;
        }
        let digits = copy_range(&stripped, start, stripped.len());
        assert(base != 10 ==> digits@ =~= unsigned.subrange(2, unsigned.len() as int));
        // Parse number with base digits
        let (mantissa, exponent) = match Self::parse_fractional_number_with_exponent(
            &digits,
            base,
        ) {
            Ok(parts) => parts,
            Err(number_error) => { return Err(number_error); },
        };
        Ok(JsonhNumber { negative, base, mantissa, exponent })
    }

    /// Takes apart a fractional number with an exponent (e.g. `12.3e4.5`)
    /// in the given base: the mantissa, and the exponent if there is one.
    pub fn parse_fractional_number_with_exponent(digits: &Vec<char>, base: u32) -> (r: Result<
        (JsonhNumberPart, Option<JsonhNumberPart>),
        JsonhError,
    >)
        ensures
            match exponent_index(digits@, base as nat) {
                Some(index) => match (
                    spec_parse_fractional_number(digits@.subrange(0, index), base as nat),
                    spec_parse_fractional_number(
                        digits@.subrange(index + 1, digits.len() as int),
                        base as nat,
                    ),
                ) {
                    (Ok(m), Ok(x)) => r is Ok && r->Ok_0.0@ == m && r->Ok_0.1 is Some
                        && r->Ok_0.1->Some_0@ == x,
                    (Err(e), _) => r is Err && r->Err_0 == e,
                    (Ok(_), Err(e)) => r is Err && r->Err_0 == e,
                },
                None => match spec_parse_fractional_number(digits@, base as nat) {
                    Ok(m) => r is Ok && r->Ok_0.0@ == m && r->Ok_0.1 is None,
                    Err(e) => r is Err && r->Err_0 == e,
                },
            },
    {
        // Find exponent
        let mut exponent_index: Option<usize> = None;
        if base == 16 {
            // Hexadecimal exponent
            let mut index: usize = 0;
            while index < digits.len() && exponent_index.is_none()
                invariant
                    index <= digits.len(),
                    exponent_index is None ==> hex_exponent_index(digits@, index as int)
                        == hex_exponent_index(digits@, 0),
                    exponent_index matches Some(found) ==> found < digits.len()
                        && hex_exponent_index(digits@, 0) == found,
                decreases digits.len() - index + if exponent_index is None { 1int } else { 0int },
            {
                let digit = digits[index];
                if (digit == 'e' || digit == 'E') && index + 1 < digits.len() && (digits[index + 1]
                    == '-' || digits[index + 1] == '+') {
                    exponent_index = Some(index);
                } else {
                    index += 1;
                }
            }
        } else {
            // Exponent
            let mut end: usize = digits.len();
            while end > 0 && exponent_index.is_none()
                invariant
                    end <= digits.len(),
                    exponent_index is None ==> last_exponent_end(digits@, end as int)
                        == last_exponent_end(digits@, digits.len() as int),
                    exponent_index matches Some(found) ==> found < digits.len()
                        && last_exponent_end(digits@, digits.len() as int) == found + 1,
                decreases end + if exponent_index is None { 1int } else { 0int },
            {
                let digit = digits[end - 1];
                if digit == 'e' || digit == 'E' {
                    exponent_index = Some(end - 1);
                } else {
                    end -= 1;
                }
            }
        }
        match exponent_index {
            // If no exponent then parse real
            None => {
                match Self::parse_fractional_number(digits, base) {
                    Ok(mantissa) => Ok((mantissa, None)),
                    Err(err) => Err(err),
                }
            },
            Some(index) => {
                // Get mantissa and exponent
                let mantissa_part = copy_range(digits, 0, index);
                let exponent_part = copy_range(digits, index + 1, digits.len());
                // Parse mantissa and exponent
                let mantissa = match Self::parse_fractional_number(&mantissa_part, base) {
                    Ok(mantissa) => mantissa,
                    Err(mantissa_error) => { return Err(mantissa_error); },
                };
                let exponent = match Self::parse_fractional_number(&exponent_part, base) {
                    Ok(exponent) => exponent,
                    Err(exponent_error) => { return Err(exponent_error); },
                };
                Ok((mantissa, Some(exponent)))
            },
        }
    }

    /// Takes apart a fractional number (e.g. `123.45`) in the given base.
    pub fn parse_fractional_number(digits: &Vec<char>, base: u32) -> (r: Result<
        JsonhNumberPart,
        JsonhError,
    >)
        ensures
            match spec_parse_fractional_number(digits@, base as nat) {
                Ok(part) => r is Ok && r->Ok_0@ == part,
                Err(e) => r is Err && r->Err_0 == e,
            },
    {
        // Base-10 digits are left to the platform
        if base == 10 {
            return Ok(JsonhNumberPart::Decimal(string_of(digits)));
        }
        // Find dot
        let mut dot: usize = 0;
        while dot < digits.len() && digits[dot] != '.'
            invariant
                dot <= digits.len(),
                dot_index(digits@, dot as int) == dot_index(digits@, 0),
            decreases digits.len() - dot,
        {
            dot += 1;
        }
        // Get parts of number
        let whole_part = copy_range(digits, 0, dot);
        let fraction_part = if dot < digits.len() {
            copy_range(digits, dot + 1, digits.len())
        } else {
            Vec::new()
        };
        // Parse parts of number
        let (negative, whole) = match Self::parse_whole_number(&whole_part, base) {
            Ok(whole) => whole,
            Err(whole_error) => { return Err(whole_error); },
        };
        let fraction = match Self::parse_digits(&fraction_part, 0, base) {
            Ok(fraction) => fraction,
            Err(fraction_error) => { return Err(fraction_error); },
        };
        assert(fraction_part@.subrange(0, fraction_part.len() as int) =~= fraction_part@);
        Ok(JsonhNumberPart::Digits { negative, whole, fraction })
    }

    /// Takes apart a whole number (e.g. `12345`) in the given base, which is
    /// not ten: its sign and the values of its digits.
    pub fn parse_whole_number(digits: &Vec<char>, base: u32) -> (r: Result<
        (bool, Vec<u8>),
        JsonhError,
    >)
        ensures
            all_base_digits(unsigned_part(digits@), base as nat) ==> r is Ok && r->Ok_0.0
                == starts_with_char(digits@, '-') && r->Ok_0.1@ == digit_values(
                unsigned_part(digits@),
            ),
            !all_base_digits(unsigned_part(digits@), base as nat) ==> r is Err && r->Err_0
                == JsonhError::InvalidDigit,
    {
        // Get sign
        let negative = digits.len() > 0 && digits[0] == '-';
        let mut start: usize = 0;
        if digits.len() > 0 && (digits[0] == '-' || digits[0] == '+') {
            start = 1;
        }
        assert(unsigned_part(digits@) =~= digits@.subrange(start as int, digits.len() as int));
        match Self::parse_digits(digits, start, base) {
            Ok(values) => Ok((negative, values)),
            Err(err) => Err(err),
        }
    }

    /// Returns the values of the digits of `digits` from `start` on, which
    /// must all be digits of the base `base`.
    pub fn parse_digits(digits: &Vec<char>, start: usize, base: u32) -> (r: Result<
        Vec<u8>,
        JsonhError,
    >)
        requires
            start <= digits.len(),
        ensures
            all_base_digits(digits@.subrange(start as int, digits.len() as int), base as nat)
                ==> r is Ok && r->Ok_0@ == digit_values(
                digits@.subrange(start as int, digits.len() as int),
            ),
            !all_base_digits(digits@.subrange(start as int, digits.len() as int), base as nat)
                ==> r is Err && r->Err_0 == JsonhError::InvalidDigit,
    {
        let ghost part = digits@.subrange(start as int, digits.len() as int);
        let mut values: Vec<u8> = Vec::new();
        let mut index: usize = start;
        while index < digits.len()
            invariant
                start <= index <= digits.len(),
                part == digits@.subrange(start as int, digits.len() as int),
                values@ == digit_values(part.take(index - start)),
                all_base_digits(part.take(index - start), base as nat),
            decreases digits.len() - index,
        {
            let ghost done = part.take(index - start);
            let ghost before = values@;
            assert(part[index - start] == digits@[index as int]);
            // Get current digit
            let value = match char_hex_digit_value(digits[index]) {
                Some(value) => value,
                None => {
                    assert(!is_base_digit(part[index - start], base as nat));
                    return Err(JsonhError::InvalidDigit);
                },
            };
            // Ensure digit is valid
            if value >= base {
                assert(!is_base_digit(part[index - start], base as nat));
                return Err(JsonhError::InvalidDigit);
            }
            values.push(value as u8);
            index += 1;
            proof {
                let now = part.take(index - start);
                assert(now =~= done.push(part[index - start - 1]));
                assert forall|j: int| 0 <= j < now.len() implies is_base_digit(
                    #[trigger] now[j],
                    base as nat,
                ) by {
                    if j < done.len() {
                        assert(now[j] == done[j]);
                    }
                }
                assert forall|j: int| 0 <= j < now.len() implies values@[j] == digit_values(
                    now,
                )[j] by {
                    if j < done.len() {
                        assert(values@[j] == before[j]);
                        assert(now[j] == done[j]);
                    }
                }
                assert(values@ =~= digit_values(now));
            }
        }
        assert(part.take(digits.len() - start) =~= part);
        Ok(values)
    }
}

} // verus!
