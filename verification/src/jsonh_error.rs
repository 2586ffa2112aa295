//! The errors of reading and parsing.
use vstd::prelude::*;

verus! {

/// The ways in which reading or parsing JSONH fails.
#[derive(Clone, Copy, Debug, PartialEq, Eq, Structural)]
pub enum JsonhError {
    /// The input ended inside an object.
    ExpectedObjectEnd,
    /// The input ended inside an array.
    ExpectedArrayEnd,
    /// An array was expected and `[` did not follow.
    ExpectedArrayStart,
    /// A property name was not followed by `:`.
    ExpectedColon,
    /// The input ended where an element had to start.
    ExpectedToken,
    /// The input ended where a primitive element had to start.
    ExpectedPrimitiveElement,
    /// Something followed the single element that the options ask for.
    ExpectedEndOfElements,
    /// An object or array was nested deeper than the options allow.
    ExceededMaxDepth,
    /// The input ended inside a quoted string.
    ExpectedEndOfString,
    /// A quoteless string had no characters.
    EmptyQuotelessString,
    /// The verbatim symbol `@` was not directly followed by a string.
    ExpectedStringAfterVerbatim,
    /// The input ended after the `\` of an escape sequence.
    ExpectedEscapeSequence,
    /// A high surrogate was followed by an escape that is no hex escape.
    ExpectedLowSurrogate,
    /// A hex escape had fewer hex digits than its kind requires.
    IncorrectHexDigits,
    /// The first half of a surrogate pair was no high surrogate.
    HighSurrogateOutOfRange,
    /// The second half of a surrogate pair was no low surrogate.
    LowSurrogateOutOfRange,
    /// A hex escape named no Unicode scalar value.
    InvalidHexEscape,
    /// The input ended inside a block comment.
    ExpectedEndOfBlockComment,
    /// The `=` signs that open a nestable block comment were not followed by `*`.
    ExpectedAsteriskAfterNesting,
    /// A `/` did not start a comment.
    UnexpectedSlash,
    /// A comment was expected and neither `#` nor `/` followed.
    UnexpectedCharacter,
    /// A number, or the exponent of one, had no characters.
    EmptyNumber,
    /// A number had no digit.
    NumberWithoutDigit,
    /// A number started with `_`.
    LeadingUnderscore,
    /// A number ended with `_`.
    TrailingUnderscore,
    /// A number had a second `.`.
    DuplicateDot,
    /// A `.` in a number directly followed a `_`.
    DotAfterUnderscore,
    /// A `_` in a number directly followed a `.`.
    UnderscoreAfterDot,
    /// A hexadecimal exponent directly followed the base specifier.
    MissingDigitBeforeExponent,
    /// A number has no representation as a JSON number.
    FailedNumberConversion,
    /// A number held a character that is no digit of its base.
    InvalidDigit,
    /// A decimal number was not accepted by the platform's parser.
    NumberParsing,
    /// The value builder met a token that has no place where it stands.
    TokenTypeNotImplemented,
}

impl JsonhError {
    /// The text of the error.
    pub open spec fn spec_message(self) -> Seq<char> {
        match self {
            JsonhError::ExpectedObjectEnd => "Expected `}` to end object, got end of input"@,
            JsonhError::ExpectedArrayEnd => "Expected `]` to end array, got end of input"@,
            JsonhError::ExpectedArrayStart => "Expected `[` to start array"@,
            JsonhError::ExpectedColon => "Expected `:` after property name in object"@,
            JsonhError::ExpectedToken => "Expected token, got end of input"@,
            JsonhError::ExpectedPrimitiveElement => "Expected primitive element, got end of input"@,
            JsonhError::ExpectedEndOfElements => "Expected end of elements"@,
            JsonhError::ExceededMaxDepth => "Exceeded max depth"@,
            JsonhError::ExpectedEndOfString => "Expected end of string, got end of input"@,
            JsonhError::EmptyQuotelessString => "Empty quoteless string"@,
            JsonhError::ExpectedStringAfterVerbatim => "Expected string to immediately follow verbatim symbol"@,
            JsonhError::ExpectedEscapeSequence => "Expected escape sequence, got end of input"@,
            JsonhError::ExpectedLowSurrogate => "Expected low surrogate after high surrogate"@,
            JsonhError::IncorrectHexDigits => "Incorrect number of hexadecimal digits in unicode escape sequence"@,
            JsonhError::HighSurrogateOutOfRange => "High surrogate out of range"@,
            JsonhError::LowSurrogateOutOfRange => "Low surrogate out of range"@,
            JsonhError::InvalidHexEscape => "Invalid hex escape sequence"@,
            JsonhError::ExpectedEndOfBlockComment => "Expected end of block comment, got end of input"@,
            JsonhError::ExpectedAsteriskAfterNesting => "Expected `*` after start of nesting block comment"@,
            JsonhError::UnexpectedSlash => "Unexpected `/`"@,
            JsonhError::UnexpectedCharacter => "Unexpected character"@,
            JsonhError::EmptyNumber => "Empty number"@,
            JsonhError::NumberWithoutDigit => "Number must have at least one digit"@,
            JsonhError::LeadingUnderscore => "Leading `_` in number"@,
            JsonhError::TrailingUnderscore => "Trailing `_` in number"@,
            JsonhError::DuplicateDot => "Duplicate `.` in number"@,
            JsonhError::DotAfterUnderscore => "`.` must not follow `_` in number"@,
            JsonhError::UnderscoreAfterDot => "`_` must not follow `.` in number"@,
            JsonhError::MissingDigitBeforeExponent => "Missing digit between base specifier and exponent"@,
            JsonhError::FailedNumberConversion => "Failed to convert number to JSON number"@,
            JsonhError::InvalidDigit => "Invalid digit"@,
            JsonhError::NumberParsing => "Error parsing number from string"@,
            JsonhError::TokenTypeNotImplemented => "Token type not implemented"@,
        }
    }

    /// Returns the text of the error.
    pub fn message(&self) -> (r: &'static str)
        ensures
            r@ == self.spec_message(),
    {
        match self {
            JsonhError::ExpectedObjectEnd => "Expected `}` to end object, got end of input",
            JsonhError::ExpectedArrayEnd => "Expected `]` to end array, got end of input",
            JsonhError::ExpectedArrayStart => "Expected `[` to start array",
            JsonhError::ExpectedColon => "Expected `:` after property name in object",
            JsonhError::ExpectedToken => "Expected token, got end of input",
            JsonhError::ExpectedPrimitiveElement => "Expected primitive element, got end of input",
            JsonhError::ExpectedEndOfElements => "Expected end of elements",
            JsonhError::ExceededMaxDepth => "Exceeded max depth",
            JsonhError::ExpectedEndOfString => "Expected end of string, got end of input",
            JsonhError::EmptyQuotelessString => "Empty quoteless string",
            JsonhError::ExpectedStringAfterVerbatim => "Expected string to immediately follow verbatim symbol",
            JsonhError::ExpectedEscapeSequence => "Expected escape sequence, got end of input",
            JsonhError::ExpectedLowSurrogate => "Expected low surrogate after high surrogate",
            JsonhError::IncorrectHexDigits => "Incorrect number of hexadecimal digits in unicode escape sequence",
            JsonhError::HighSurrogateOutOfRange => "High surrogate out of range",
            JsonhError::LowSurrogateOutOfRange => "Low surrogate out of range",
            JsonhError::InvalidHexEscape => "Invalid hex escape sequence",
            JsonhError::ExpectedEndOfBlockComment => "Expected end of block comment, got end of input",
            JsonhError::ExpectedAsteriskAfterNesting => "Expected `*` after start of nesting block comment",
            JsonhError::UnexpectedSlash => "Unexpected `/`",
            JsonhError::UnexpectedCharacter => "Unexpected character",
            JsonhError::EmptyNumber => "Empty number",
            JsonhError::NumberWithoutDigit => "Number must have at least one digit",
            JsonhError::LeadingUnderscore => "Leading `_` in number",
            JsonhError::TrailingUnderscore => "Trailing `_` in number",
            JsonhError::DuplicateDot => "Duplicate `.` in number",
            JsonhError::DotAfterUnderscore => "`.` must not follow `_` in number",
            JsonhError::UnderscoreAfterDot => "`_` must not follow `.` in number",
            JsonhError::MissingDigitBeforeExponent => "Missing digit between base specifier and exponent",
            JsonhError::FailedNumberConversion => "Failed to convert number to JSON number",
            JsonhError::InvalidDigit => "Invalid digit",
            JsonhError::NumberParsing => "Error parsing number from string",
            JsonhError::TokenTypeNotImplemented => "Token type not implemented",
        }
    }
}

} // verus!
