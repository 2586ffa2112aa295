//! Number tokens, and the primitive elements that start like numbers.
use vstd::prelude::*;
use crate::char_classes::{
    char_is_base_digit,
    char_is_newline,
    char_is_reserved,
    char_is_whitespace,
    is_base_digit,
    is_newline,
    is_reserved,
};
use crate::escapes::Scanned;
use crate::indent::is_blank;
use crate::json_token_type::JsonTokenType;
use crate::jsonh_error::JsonhError;
use crate::jsonh_reader::{char_at, is_char_at, JsonhReader};
use crate::jsonh_token::{JsonhToken, JsonhTokenView};
use crate::strings::{lemma_read_quoteless_chars, lemma_read_string, spec_read_quoteless_string, spec_read_string};
use crate::text::{copy_range, string_of};

verus! {

/// Whether `c` is a character of a number that is no digit: a dot, a sign or
/// an underscore.
pub open spec fn is_number_punctuation(c: char) -> bool {
    c == '.' || c == '-' || c == '+' || c == '_'
}

/// Whether some character of `s` from `begin` up to `end` is more than
/// punctuation of a number.
pub open spec fn has_digit_char(s: Seq<char>, begin: int, end: int) -> bool {
    exists|i: int| begin <= i < end && 0 <= i < s.len() && !is_number_punctuation(#[trigger] s[i])
}

/// Whether a sign stands at `pos`.
pub open spec fn is_sign_at(s: Seq<char>, pos: int) -> bool {
    is_char_at(s, pos, '-') || is_char_at(s, pos, '+')
}

/// Whether an exponent marker stands at `pos`.
pub open spec fn is_exponent_at(s: Seq<char>, pos: int) -> bool {
    is_char_at(s, pos, 'e') || is_char_at(s, pos, 'E')
}

/// The number base that the character `c` announces after a leading zero;
/// ten if it announces none.
pub open spec fn base_of_specifier(c: Option<char>) -> nat {
    if c == Some('x') || c == Some('X') {
        16
    } else if c == Some('b') || c == Some('B') {
        2
    } else if c == Some('o') || c == Some('O') {
        8
    } else {
        10
    }
}

/// Reading digits of the base `base`, underscores and at most one dot from
/// `pos`, in a number that starts at `begin`. `fraction` says whether a dot
/// was read, `empty` whether nothing counts as read so far. A dot may not
/// follow an underscore, nor an underscore a dot. The result says whether the
/// number is still empty.
pub open spec fn spec_read_number_digits(
    s: Seq<char>,
    pos: int,
    base: nat,
    begin: int,
    fraction: bool,
    empty: bool,
) -> Scanned<bool>
    decreases s.len() - pos,
{
    match char_at(s, pos) {
        None => Scanned { result: Ok(empty), pos },
        Some(c) => {
            if is_base_digit(c, base) {
                spec_read_number_digits(s, pos + 1, base, begin, fraction, false)
            } else if c == '.' {
                if pos > begin && s[pos - 1] == '_' {
                    Scanned { result: Err(JsonhError::DotAfterUnderscore), pos }
                } else if fraction {
                    Scanned { result: Err(JsonhError::DuplicateDot), pos: pos + 1 }
                } else {
                    spec_read_number_digits(s, pos + 1, base, begin, true, false)
                }
            } else if c == '_' {
                if pos > begin && s[pos - 1] == '.' {
                    Scanned { result: Err(JsonhError::UnderscoreAfterDot), pos }
                } else {
                    spec_read_number_digits(s, pos + 1, base, begin, fraction, false)
                }
            } else {
                Scanned { result: Ok(empty), pos }
            }
        },
    }
}

/// Reading the part of a number before or after the exponent marker from
/// `pos`, in a number that starts at `begin`. The part may start with an
/// underscore only after a base specifier or a leading zero, must not be
/// empty (a leading zero counts), and the number read so far must hold a
/// digit and must not end with an underscore.
pub open spec fn spec_read_number_no_exponent(
    s: Seq<char>,
    pos: int,
    base: nat,
    begin: int,
    has_base_specifier: bool,
    has_leading_zero: bool,
) -> Scanned<()> {
    if !has_base_specifier && !has_leading_zero && is_char_at(s, pos, '_') {
        Scanned { result: Err(JsonhError::LeadingUnderscore), pos }
    } else {
        let digits = spec_read_number_digits(s, pos, base, begin, false, !has_leading_zero);
        match digits.result {
            Err(e) => Scanned { result: Err(e), pos: digits.pos },
            Ok(empty) => Scanned {
                result: if empty {
                    Err(JsonhError::EmptyNumber)
                } else if !has_digit_char(s, begin, digits.pos) {
                    Err(JsonhError::NumberWithoutDigit)
                } else if digits.pos > begin && s[digits.pos - 1] == '_' {
                    Err(JsonhError::TrailingUnderscore)
                } else {
                    Ok(())
                },
                pos: digits.pos,
            },
        }
    }
}

/// How a number starts: its base, whether a base specifier announced it,
/// whether the number starts with a zero that is a digit, and the position
/// after the sign and the base specifier.
pub struct NumberPrefix {
    pub base: nat,
    pub has_base_specifier: bool,
    pub has_leading_zero: bool,
    pub pos: int,
}

/// Reading the start of a number from `pos`: an optional sign, then an
/// optional zero, which a letter for the base may follow: `x`, `b` or `o`, in
/// either case.
pub open spec fn spec_read_number_prefix(s: Seq<char>, pos: int) -> NumberPrefix {
    let after_sign = if is_sign_at(s, pos) {
        pos + 1
    } else {
        pos
    };
    let zero = is_char_at(s, after_sign, '0');
    let base = if zero {
        base_of_specifier(char_at(s, after_sign + 1))
    } else {
        10
    };
    NumberPrefix {
        base,
        has_base_specifier: base != 10,
        has_leading_zero: zero && base == 10,
        pos: if base != 10 {
            after_sign + 2
        } else if zero {
            after_sign + 1
        } else {
            after_sign
        },
    }
}

/// Reading the exponent of a number that starts at `begin`, from the
/// position `pos` after its digits. In base sixteen `e` is a digit: an
/// exponent starts only where a sign follows a last digit `e`, and the digit
/// must not be the only one. Else `e` or `E` starts the exponent, and a sign
/// may follow it.
pub open spec fn spec_read_number_exponent(
    s: Seq<char>,
    pos: int,
    base: nat,
    begin: int,
    has_base_specifier: bool,
) -> Scanned<()> {
    if is_exponent_at(s, pos - 1) {
        if is_sign_at(s, pos) {
            if has_base_specifier && pos + 1 - begin == 4 {
                Scanned { result: Err(JsonhError::MissingDigitBeforeExponent), pos: pos + 1 }
            } else {
                spec_read_number_no_exponent(s, pos + 1, base, begin, false, false)
            }
        } else {
            Scanned { result: Ok(()), pos }
        }
    } else if is_exponent_at(s, pos) {
        let exponent_start = if is_sign_at(s, pos + 1) {
            pos + 2
        } else {
            pos + 1
        };
        spec_read_number_no_exponent(s, exponent_start, base, begin, false, false)
    } else {
        Scanned { result: Ok(()), pos }
    }
}

/// Reading a number from `pos`: an optional sign; an optional base specifier
/// `0x`, `0b` or `0o`; digits, underscores and a dot; and an optional
/// exponent. The characters read are the number's literal.
#[verifier::opaque]
pub open spec fn spec_read_number(s: Seq<char>, pos: int) -> Scanned<()> {
    let prefix = spec_read_number_prefix(s, pos);
    let main = spec_read_number_no_exponent(
        s,
        prefix.pos,
        prefix.base,
        pos,
        prefix.has_base_specifier,
        prefix.has_leading_zero,
    );
    if main.result is Err {
        main
    } else {
        spec_read_number_exponent(s, main.pos, prefix.base, pos, prefix.has_base_specifier)
    }
}

/// The first position from `pos` on that holds no blank character, or the
/// length of `s`.
pub open spec fn blank_end(s: Seq<char>, pos: int) -> int
    decreases s.len() - pos,
{
    if 0 <= pos < s.len() && is_blank(s[pos]) {
        blank_end(s, pos + 1)
    } else {
        pos
    }
}

/// Whether what follows a number at `pos` makes it the start of a quoteless
/// string: after blank characters, on the same line, stands `\` or a
/// character that is not reserved.
pub open spec fn spec_detect_quoteless_string(s: Seq<char>, pos: int, v2: bool) -> bool {
    match char_at(s, blank_end(s, pos)) {
        Some(c) => !is_newline(c) && (c == '\\' || !is_reserved(c, v2)),
        None => false,
    }
}

/// The number token with the literal `literal`.
pub open spec fn number_token(literal: Seq<char>) -> JsonhTokenView {
    JsonhTokenView { json_type: JsonTokenType::Number, value: literal }
}

/// Reading a number from `pos`, or the quoteless string that starts like
/// one: a number that fails, or that more text follows on its line, is the
/// start of a quoteless string.
#[verifier::opaque]
pub open spec fn spec_read_number_or_quoteless_string(s: Seq<char>, pos: int, v2: bool) -> Scanned<
    JsonhTokenView,
> {
    let number = spec_read_number(s, pos);
    if number.result is Ok {
        let end = blank_end(s, number.pos);
        if spec_detect_quoteless_string(s, number.pos, v2) {
            spec_read_quoteless_string(s, end, v2, s.subrange(pos, end), false)
        } else {
            Scanned { result: Ok(number_token(s.subrange(pos, number.pos))), pos: end }
        }
    } else {
        spec_read_quoteless_string(s, number.pos, v2, s.subrange(pos, number.pos), false)
    }
}

/// Whether a number may start with the character `c`.
pub open spec fn is_number_start(c: char) -> bool {
    ('0' <= c && c <= '9') || c == '-' || c == '+' || c == '.'
}

/// Reading a primitive element from `pos`: a number, a string or a named
/// literal, told apart by the first character.
#[verifier::opaque]
pub open spec fn spec_read_primitive_element(s: Seq<char>, pos: int, v2: bool) -> Scanned<
    JsonhTokenView,
> {
    match char_at(s, pos) {
        None => Scanned { result: Err(JsonhError::ExpectedPrimitiveElement), pos },
        Some(c) => {
            if is_number_start(c) {
                spec_read_number_or_quoteless_string(s, pos, v2)
            } else if c == '"' || c == '\'' || (v2 && c == '@') {
                spec_read_string(s, pos, v2)
            } else {
                spec_read_quoteless_string(s, pos, v2, Seq::empty(), false)
            }
        },
    }
}

/// The digits of a number are read forward and inside the input; where the
/// number is not empty afterwards and was before, a character was read.
pub proof fn lemma_read_number_digits(
    s: Seq<char>,
    pos: int,
    base: nat,
    begin: int,
    fraction: bool,
    empty: bool,
)
    requires
        0 <= pos <= s.len(),
    ensures
        pos <= spec_read_number_digits(s, pos, base, begin, fraction, empty).pos <= s.len(),
        spec_read_number_digits(s, pos, base, begin, fraction, empty).result == Ok::<
            bool,
            JsonhError,
        >(false) && empty ==> spec_read_number_digits(s, pos, base, begin, fraction, empty).pos
            > pos,
    decreases s.len() - pos,
{
    match char_at(s, pos) {
        None => {},
        Some(c) => {
            if is_base_digit(c, base) {
                lemma_read_number_digits(s, pos + 1, base, begin, fraction, false);
            } else if c == '.' {
                if pos > begin && s[pos - 1] == '_' {
                } else if fraction {
                } else {
                    lemma_read_number_digits(s, pos + 1, base, begin, true, false);
                }
            } else if c == '_' {
                if pos > begin && s[pos - 1] == '.' {
                } else {
                    lemma_read_number_digits(s, pos + 1, base, begin, fraction, false);
                }
            }
        },
    }
}

/// A part of a number is read forward and inside the input.
pub proof fn lemma_read_number_no_exponent(
    s: Seq<char>,
    pos: int,
    base: nat,
    begin: int,
    has_base_specifier: bool,
    has_leading_zero: bool,
)
    requires
        0 <= pos <= s.len(),
    ensures
        pos <= spec_read_number_no_exponent(
            s,
            pos,
            base,
            begin,
            has_base_specifier,
            has_leading_zero,
        ).pos <= s.len(),
        spec_read_number_no_exponent(
            s,
            pos,
            base,
            begin,
            has_base_specifier,
            has_leading_zero,
        ).result is Ok && !has_leading_zero ==> spec_read_number_no_exponent(
            s,
            pos,
            base,
            begin,
            has_base_specifier,
            has_leading_zero,
        ).pos > pos,
{
    lemma_read_number_digits(s, pos, base, begin, false, !has_leading_zero);
}

/// The exponent of a number is read forward and inside the input.
pub proof fn lemma_read_number_exponent(
    s: Seq<char>,
    pos: int,
    base: nat,
    begin: int,
    has_base_specifier: bool,
)
    requires
        0 <= pos <= s.len(),
    ensures
        pos <= spec_read_number_exponent(s, pos, base, begin, has_base_specifier).pos <= s.len(),
{
    if is_exponent_at(s, pos - 1) {
        if is_sign_at(s, pos) {
            lemma_read_number_no_exponent(s, pos + 1, base, begin, false, false);
        }
    } else if is_exponent_at(s, pos) {
        let exponent_start = if is_sign_at(s, pos + 1) {
            pos + 2
        } else {
            pos + 1
        };
        lemma_read_number_no_exponent(s, exponent_start, base, begin, false, false);
    }
}

/// A number is read forward and inside the input, and a number that was read
/// has at least one character.
pub proof fn lemma_read_number(s: Seq<char>, pos: int)
    requires
        0 <= pos <= s.len(),
    ensures
        pos <= spec_read_number(s, pos).pos <= s.len(),
        spec_read_number(s, pos).result is Ok ==> spec_read_number(s, pos).pos > pos,
{
    reveal(spec_read_number);
    let prefix = spec_read_number_prefix(s, pos);
    lemma_read_number_no_exponent(
        s,
        prefix.pos,
        prefix.base,
        pos,
        prefix.has_base_specifier,
        prefix.has_leading_zero,
    );
    let main = spec_read_number_no_exponent(
        s,
        prefix.pos,
        prefix.base,
        pos,
        prefix.has_base_specifier,
        prefix.has_leading_zero,
    );
    if main.result is Ok {
        lemma_read_number_exponent(s, main.pos, prefix.base, pos, prefix.has_base_specifier);
    }
}

/// The literal of a number that was read holds a character that is more
/// than a sign, a dot or an underscore.
pub proof fn lemma_number_has_digit(s: Seq<char>, pos: int)
    requires
        0 <= pos <= s.len(),
    ensures
        spec_read_number(s, pos).result is Ok ==> has_digit_char(
            s,
            pos,
            spec_read_number(s, pos).pos,
        ),
{
    reveal(spec_read_number);
}

/// `blank_end` stops inside the input at the first character that is not
/// blank.
pub proof fn lemma_blank_end(s: Seq<char>, pos: int)
    requires
        0 <= pos <= s.len(),
    ensures
        pos <= blank_end(s, pos) <= s.len(),
    decreases s.len() - pos,
{
    if pos < s.len() && is_blank(s[pos]) {
        lemma_blank_end(s, pos + 1);
    }
}

/// A primitive element that was read has at least one character, and reading
/// stays inside the input.
pub proof fn lemma_read_primitive_element(s: Seq<char>, pos: int, v2: bool)
    requires
        0 <= pos <= s.len(),
    ensures
        pos <= spec_read_primitive_element(s, pos, v2).pos <= s.len(),
        spec_read_primitive_element(s, pos, v2).result is Ok ==> spec_read_primitive_element(
            s,
            pos,
            v2,
        ).pos > pos,
{
    reveal(spec_read_primitive_element);
    reveal(spec_read_number_or_quoteless_string);
    reveal(spec_read_quoteless_string);
    match char_at(s, pos) {
        None => {},
        Some(c) => {
            if is_number_start(c) {
                lemma_read_number(s, pos);
                let number = spec_read_number(s, pos);
                lemma_blank_end(s, number.pos);
                if number.result is Ok {
                    let end = blank_end(s, number.pos);
                    lemma_read_quoteless_chars(s, end, v2, false, s.subrange(pos, end), true);
                } else {
                    lemma_read_quoteless_chars(
                        s,
                        number.pos,
                        v2,
                        false,
                        s.subrange(pos, number.pos),
                        true,
                    );
                    assert(number.pos == pos ==> s.subrange(pos, number.pos).len() == 0);
                }
            } else if c == '"' || c == '\'' || (v2 && c == '@') {
                lemma_read_string(s, pos, v2);
            } else {
                lemma_read_quoteless_chars(s, pos, v2, false, Seq::empty(), true);
            }
        },
    }
}

impl JsonhReader {
    /// Reads the part of a number before or after the exponent marker, in a
    /// number of the base `base` that starts at `begin`.
    pub fn read_number_no_exponent(
        &mut self,
        base: u32,
        begin: usize,
        has_base_specifier: bool,
        has_leading_zero: bool,
    ) -> (r: Result<(), JsonhError>)
        requires
            old(self).wf(),
            begin <= old(self).position(),
        ensures
            final(self).wf(),
            ({
                let out = spec_read_number_no_exponent(
                    old(self).source@,
                    old(self).position(),
                    base as nat,
                    begin as int,
                    has_base_specifier,
                    has_leading_zero,
                );
                &&& final(self).continues(old(self), out.pos, old(self).depth as int)
                &&& r == out.result
            }),
    {
        // Leading underscore
        if !has_base_specifier && !has_leading_zero && self.peek() == Some('_') {
            return Err(JsonhError::LeadingUnderscore);
        }
        let mut is_fraction = false;
        // A leading zero (not base specifier) counts
        let mut is_empty = !has_leading_zero;
        let ghost total = spec_read_number_digits(
            self.source@,
            self.position(),
            base as nat,
            begin as int,
            false,
            !has_leading_zero,
        );
        let mut done = false;
        while !done
            invariant
                self.wf(),
                self.source == old(self).source,
                self.options == old(self).options,
                self.depth == old(self).depth,
                begin <= old(self).position() <= self.position(),
                !done ==> spec_read_number_digits(
                    self.source@,
                    self.position(),
                    base as nat,
                    begin as int,
                    is_fraction,
                    is_empty,
                ) == total,
                done ==> self.position() == total.pos && total.result == Ok::<bool, JsonhError>(
                    is_empty,
                ),
            decreases self.source.len() - self.char_counter + if done { 0int } else { 1int },
        {
            match self.peek() {
                None => {
                    done = true;
                },
                Some(next) => {
                    let position: usize = self.char_counter as usize;
                    if char_is_base_digit(next, base) {
                        // Digit
                        self.read();
                        is_empty = false;
                    } else if next == '.' {
                        // Disallow dot following underscore
                        if position > begin && self.source[position - 1] == '_' {
                            return Err(JsonhError::DotAfterUnderscore);
                        }
                        self.read();
                        is_empty = false;
                        // Duplicate dot
                        if is_fraction {
                            return Err(JsonhError::DuplicateDot);
                        }
                        is_fraction = true;
                    } else if next == '_' {
                        // Disallow underscore following dot
                        if position > begin && self.source[position - 1] == '.' {
                            return Err(JsonhError::UnderscoreAfterDot);
                        }
                        self.read();
                        is_empty = false;
                    } else {
                        done = true;
                    }
                },
            }
        }
        // Ensure not empty
        if is_empty {
            return Err(JsonhError::EmptyNumber);
        }
        // Ensure at least one digit
        let end: usize = self.char_counter as usize;
        let mut has_digit = false;
        let mut index: usize = begin;
        while index < end && !has_digit
            invariant
                begin <= index <= end <= self.source.len(),
                has_digit ==> has_digit_char(self.source@, begin as int, end as int),
                !has_digit ==> forall|i: int|
                    begin <= i < index ==> is_number_punctuation(#[trigger] self.source@[i]),
            decreases end - index + if has_digit { 0int } else { 1int },
        {
            let c = self.source[index];
            if c == '.' || c == '-' || c == '+' || c == '_' {
                index += 1;
            } else {
                has_digit = true;
            }
        }
        if !has_digit {
            return Err(JsonhError::NumberWithoutDigit);
        }
        // Trailing underscore
        if end > begin && self.source[end - 1] == '_' {
            return Err(JsonhError::TrailingUnderscore);
        }
        // End of number
        Ok(())
    }

    /// Reads the sign and the base specifier of a number, and returns the
    /// base, whether a specifier announced it, and whether the number starts
    /// with a zero that is a digit.
    pub fn read_number_prefix(&mut self) -> (r: (u32, bool, bool))
        requires
            old(self).wf(),
        ensures
            final(self).wf(),
            ({
                let out = spec_read_number_prefix(old(self).source@, old(self).position());
                &&& final(self).continues(old(self), out.pos, old(self).depth as int)
                &&& r.0 == out.base
                &&& r.1 == out.has_base_specifier
                &&& r.2 == out.has_leading_zero
            }),
    {
        // Read sign
        if !self.read_one('-') {
            self.read_one('+');
        }
        // Read base
        let mut base: u32 = 10;
        let mut has_leading_zero = false;
        if self.read_one('0') {
            has_leading_zero = true;
            let specifier = self.peek();
            if specifier == Some('x') || specifier == Some('X') {
                base = 16;
            } else if specifier == Some('b') || specifier == Some('B') {
                base = 2;
            } else if specifier == Some('o') || specifier == Some('O') {
                base = 8;
            }
            if base != 10 {
                self.read();
                has_leading_zero = false;
            }
        }
        (base, base != 10, has_leading_zero)
    }

    /// Reads the exponent of a number that starts at `begin`, if one follows
    /// its digits.
    pub fn read_number_exponent(&mut self, base: u32, begin: usize, has_base_specifier: bool) -> (r:
        Result<(), JsonhError>)
        requires
            old(self).wf(),
            begin < old(self).position(),
        ensures
            final(self).wf(),
            ({
                let out = spec_read_number_exponent(
                    old(self).source@,
                    old(self).position(),
                    base as nat,
                    begin as int,
                    has_base_specifier,
                );
                &&& final(self).continues(old(self), out.pos, old(self).depth as int)
                &&& r == out.result
            }),
    {
        let end: usize = self.char_counter as usize;
        let last = self.source[end - 1];
        if last == 'e' || last == 'E' {
            // Possible hexadecimal exponent: the sign is mandatory
            if self.read_one('-') || self.read_one('+') {
                // Missing digit between base specifier and exponent (e.g. `0xe+`)
                if has_base_specifier && end + 1 - begin == 4 {
                    return Err(JsonhError::MissingDigitBeforeExponent);
                }
                // Read exponent number
                return self.read_number_no_exponent(base, begin, false, false);
            }
            Ok(())
        } else if self.read_one('e') || self.read_one('E') {
            // Exponent: read sign
            if !self.read_one('-') {
                self.read_one('+');
            }
            // Read exponent number
            self.read_number_no_exponent(base, begin, false, false)
        } else {
            Ok(())
        }
    }

    /// Reads a number and returns its token, which holds the literal as it
    /// was read.
    pub fn read_number(&mut self) -> (r: Result<JsonhToken, JsonhError>)
        requires
            old(self).wf(),
        ensures
            final(self).wf(),
            ({
                let out = spec_read_number(old(self).source@, old(self).position());
                &&& final(self).continues(old(self), out.pos, old(self).depth as int)
                &&& match r {
                    Ok(token) => out.result is Ok && token@ == number_token(
                        old(self).source@.subrange(old(self).position(), out.pos),
                    ),
                    Err(e) => out.result == Err::<(), JsonhError>(e),
                }
            }),
    {
        proof {
            reveal(spec_read_number);
        }
        let begin: usize = self.char_counter as usize;
        let (base, has_base_specifier, has_leading_zero) = self.read_number_prefix();
        // Read main number
        proof {
            lemma_read_number_no_exponent(
                self.source@,
                self.position(),
                base as nat,
                begin as int,
                has_base_specifier,
                has_leading_zero,
            );
        }
        match self.read_number_no_exponent(base, begin, has_base_specifier, has_leading_zero) {
            Err(main_error) => { return Err(main_error); },
            Ok(()) => {},
        }
        // Read exponent
        proof {
            lemma_read_number(self.source@, begin as int);
            lemma_read_number_exponent(
                self.source@,
                self.position(),
                base as nat,
                begin as int,
                has_base_specifier,
            );
        }
        match self.read_number_exponent(base, begin, has_base_specifier) {
            Err(exponent_error) => { return Err(exponent_error); },
            Ok(()) => {},
        }
        // End of number
        let literal = copy_range(&self.source, begin, self.char_counter as usize);
        Ok(JsonhToken::new(JsonTokenType::Number, string_of(&literal)))
    }

    /// Reads blank characters after a number and returns whether the number
    /// is the start of a quoteless string.
    pub fn detect_quoteless_string(&mut self) -> (r: bool)
        requires
            old(self).wf(),
        ensures
            final(self).wf(),
            final(self).continues(
                old(self),
                blank_end(old(self).source@, old(self).position()),
                old(self).depth as int,
            ),
            r == spec_detect_quoteless_string(
                old(self).source@,
                old(self).position(),
                old(self).options.v2(),
            ),
    {
        let v2 = self.v2();
        loop
            invariant
                self.wf(),
                self.source == old(self).source,
                self.options == old(self).options,
                self.depth == old(self).depth,
                blank_end(self.source@, self.position()) == blank_end(
                    old(self).source@,
                    old(self).position(),
                ),
            decreases self.source.len() - self.char_counter,
        {
            match self.peek() {
                None => { return false; },
                Some(next) => {
                    if char_is_newline(next) {
                        // Quoteless strings cannot contain unescaped newlines
                        return false;
                    }
                    if !char_is_whitespace(next) {
                        // Found quoteless string if found backslash or non-reserved char
                        return next == '\\' || !char_is_reserved(next, v2);
                    }
                    // Whitespace
                    self.read();
                },
            }
        }
    }

    /// Reads a number, or the quoteless string that starts like a number.
    pub fn read_number_or_quoteless_string(&mut self) -> (r: Result<JsonhToken, JsonhError>)
        requires
            old(self).wf(),
        ensures
            final(self).wf(),
            ({
                let out = spec_read_number_or_quoteless_string(
                    old(self).source@,
                    old(self).position(),
                    old(self).options.v2(),
                );
                &&& final(self).continues(old(self), out.pos, old(self).depth as int)
                &&& match r {
                    Ok(token) => out.result == Ok::<JsonhTokenView, JsonhError>(token@),
                    Err(e) => out.result == Err::<JsonhTokenView, JsonhError>(e),
                }
            }),
    {
        proof {
            reveal(spec_read_number_or_quoteless_string);
        }
        let begin: usize = self.char_counter as usize;
        proof {
            lemma_read_number(self.source@, begin as int);
        }
        // Read number
        match self.read_number() {
            Ok(number) => {
                proof {
                    lemma_blank_end(self.source@, self.position());
                }
                // Try read quoteless string starting with number
                if self.detect_quoteless_string() {
                    let initial = copy_range(&self.source, begin, self.char_counter as usize);
                    self.read_quoteless_chars(initial, false)
                } else {
                    // Otherwise, accept number
                    Ok(number)
                }
            },
            Err(_) => {
                // Read quoteless string starting with malformed number
                let initial = copy_range(&self.source, begin, self.char_counter as usize);
                self.read_quoteless_chars(initial, false)
            },
        }
    }

    /// Reads a primitive element: a number, a string or a named literal.
    pub fn read_primitive_element(&mut self) -> (r: Result<JsonhToken, JsonhError>)
        requires
            old(self).wf(),
        ensures
            final(self).wf(),
            ({
                let out = spec_read_primitive_element(
                    old(self).source@,
                    old(self).position(),
                    old(self).options.v2(),
                );
                &&& final(self).continues(old(self), out.pos, old(self).depth as int)
                &&& match r {
                    Ok(token) => out.result == Ok::<JsonhTokenView, JsonhError>(token@),
                    Err(e) => out.result == Err::<JsonhTokenView, JsonhError>(e),
                }
            }),
    {
        proof {
            reveal(spec_read_primitive_element);
        }
        let next = match self.peek() {
            Some(c) => c,
            None => { return Err(JsonhError::ExpectedPrimitiveElement); },
        };
        if ('0' <= next && next <= '9') || next == '-' || next == '+' || next == '.' {
            // Number
            self.read_number_or_quoteless_string()
        } else if next == '"' || next == '\'' || (self.v2() && next == '@') {
            // String
            self.read_string()
        } else {
            // Quoteless string (or named literal)
            self.read_quoteless_chars(Vec::new(), false)
        }
    }
}

} // verus!
