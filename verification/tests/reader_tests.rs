use jsonh_rs::{
    JsonTokenType, JsonhError, JsonhNumberParser, JsonhNumberPart, JsonhReader,
    JsonhReaderOptions, JsonhToken, JsonhValue, JsonhValueBuilder, JsonhVersion,
};

fn reader(jsonh: &str) -> JsonhReader {
    JsonhReader::from_str(jsonh, JsonhReaderOptions::new())
}

fn reader_v1(jsonh: &str) -> JsonhReader {
    JsonhReader::from_str(jsonh, JsonhReaderOptions::new().with_version(JsonhVersion::V1))
}

fn kinds(tokens: &Vec<Result<JsonhToken, JsonhError>>) -> Vec<JsonTokenType> {
    let mut kinds: Vec<JsonTokenType> = Vec::new();
    for token in tokens {
        kinds.push(token.as_ref().unwrap().json_type);
    }
    kinds
}

fn last_error(tokens: &Vec<Result<JsonhToken, JsonhError>>) -> Option<JsonhError> {
    match tokens.last() {
        Some(Err(error)) => Some(*error),
        _ => None,
    }
}

fn parse_error(jsonh: &str) -> JsonhError {
    JsonhReader::parse_element_from_str(jsonh, JsonhReaderOptions::new()).unwrap_err()
}

fn parse_string(jsonh: &str) -> String {
    match JsonhReader::parse_element_from_str(jsonh, JsonhReaderOptions::new()).unwrap() {
        JsonhValue::String(text) => text,
        other => panic!("not a string: {:?}", other),
    }
}

fn nesting_is_balanced(tokens: &Vec<Result<JsonhToken, JsonhError>>) -> bool {
    let mut open: Vec<JsonTokenType> = Vec::new();
    for token in tokens {
        match token.as_ref().unwrap().json_type {
            JsonTokenType::StartObject => open.push(JsonTokenType::StartObject),
            JsonTokenType::StartArray => open.push(JsonTokenType::StartArray),
            JsonTokenType::EndObject => {
                if open.pop() != Some(JsonTokenType::StartObject) {
                    return false;
                }
            }
            JsonTokenType::EndArray => {
                if open.pop() != Some(JsonTokenType::StartArray) {
                    return false;
                }
            }
            _ => {}
        }
    }
    open.is_empty()
}

#[test]
fn options_default_values_test() {
    let options = JsonhReaderOptions::new();
    assert_eq!(options.version, JsonhVersion::Latest);
    assert_eq!(options.parse_single_element, false);
    assert_eq!(options.max_depth, 64);
    assert_eq!(options.incomplete_inputs, false);
}

#[test]
fn options_builders_test() {
    let options = JsonhReaderOptions::new()
        .with_version(JsonhVersion::V1)
        .with_parse_single_element(true)
        .with_max_depth(3)
        .incomplete_inputs(true);
    assert_eq!(options.version, JsonhVersion::V1);
    assert_eq!(options.parse_single_element, true);
    assert_eq!(options.max_depth, 3);
    assert_eq!(options.incomplete_inputs, true);
}

#[test]
fn supports_version_test() {
    let latest = JsonhReaderOptions::new();
    assert!(latest.supports_version(JsonhVersion::V1));
    assert!(latest.supports_version(JsonhVersion::V2));
    assert!(latest.supports_version(JsonhVersion::Latest));
    let v1 = JsonhReaderOptions::new().with_version(JsonhVersion::V1);
    assert!(v1.supports_version(JsonhVersion::V1));
    assert!(!v1.supports_version(JsonhVersion::V2));
    assert!(!v1.supports_version(JsonhVersion::Latest));
    let v2 = JsonhReaderOptions::new().with_version(JsonhVersion::V2);
    assert!(v2.supports_version(JsonhVersion::Latest));
    assert_eq!(JsonhVersion::Latest.number(), 2);
    assert_eq!(JsonhVersion::V1.number(), 1);
}

#[test]
fn token_constructors_test() {
    let token = JsonhToken::new(JsonTokenType::String, "text".to_string());
    assert_eq!(token.json_type, JsonTokenType::String);
    assert_eq!(token.value, "text");
    let empty = JsonhToken::new_empty(JsonTokenType::StartArray);
    assert_eq!(empty.json_type, JsonTokenType::StartArray);
    assert_eq!(empty.value, "");
    assert!(!empty.is_a_teapot());
    let copy = token.clone();
    assert_eq!(copy.json_type, JsonTokenType::String);
    assert_eq!(copy.value, "text");
}

#[test]
fn error_messages_test() {
    assert_eq!(JsonhError::ExpectedObjectEnd.message(), "Expected `}` to end object, got end of input");
    assert_eq!(JsonhError::ExpectedArrayEnd.message(), "Expected `]` to end array, got end of input");
    assert_eq!(JsonhError::ExpectedArrayStart.message(), "Expected `[` to start array");
    assert_eq!(JsonhError::ExpectedColon.message(), "Expected `:` after property name in object");
    assert_eq!(JsonhError::ExpectedToken.message(), "Expected token, got end of input");
    assert_eq!(JsonhError::ExpectedPrimitiveElement.message(), "Expected primitive element, got end of input");
    assert_eq!(JsonhError::ExpectedEndOfElements.message(), "Expected end of elements");
    assert_eq!(JsonhError::ExceededMaxDepth.message(), "Exceeded max depth");
    assert_eq!(JsonhError::ExpectedEndOfString.message(), "Expected end of string, got end of input");
    assert_eq!(JsonhError::EmptyQuotelessString.message(), "Empty quoteless string");
    assert_eq!(JsonhError::ExpectedStringAfterVerbatim.message(), "Expected string to immediately follow verbatim symbol");
    assert_eq!(JsonhError::ExpectedEscapeSequence.message(), "Expected escape sequence, got end of input");
    assert_eq!(JsonhError::ExpectedLowSurrogate.message(), "Expected low surrogate after high surrogate");
    assert_eq!(JsonhError::IncorrectHexDigits.message(), "Incorrect number of hexadecimal digits in unicode escape sequence");
    assert_eq!(JsonhError::HighSurrogateOutOfRange.message(), "High surrogate out of range");
    assert_eq!(JsonhError::LowSurrogateOutOfRange.message(), "Low surrogate out of range");
    assert_eq!(JsonhError::InvalidHexEscape.message(), "Invalid hex escape sequence");
    assert_eq!(JsonhError::ExpectedEndOfBlockComment.message(), "Expected end of block comment, got end of input");
    assert_eq!(JsonhError::ExpectedAsteriskAfterNesting.message(), "Expected `*` after start of nesting block comment");
    assert_eq!(JsonhError::UnexpectedSlash.message(), "Unexpected `/`");
    assert_eq!(JsonhError::UnexpectedCharacter.message(), "Unexpected character");
    assert_eq!(JsonhError::EmptyNumber.message(), "Empty number");
    assert_eq!(JsonhError::NumberWithoutDigit.message(), "Number must have at least one digit");
    assert_eq!(JsonhError::LeadingUnderscore.message(), "Leading `_` in number");
    assert_eq!(JsonhError::TrailingUnderscore.message(), "Trailing `_` in number");
    assert_eq!(JsonhError::DuplicateDot.message(), "Duplicate `.` in number");
    assert_eq!(JsonhError::DotAfterUnderscore.message(), "`.` must not follow `_` in number");
    assert_eq!(JsonhError::UnderscoreAfterDot.message(), "`_` must not follow `.` in number");
    assert_eq!(JsonhError::MissingDigitBeforeExponent.message(), "Missing digit between base specifier and exponent");
    assert_eq!(JsonhError::FailedNumberConversion.message(), "Failed to convert number to JSON number");
    assert_eq!(JsonhError::InvalidDigit.message(), "Invalid digit");
    assert_eq!(JsonhError::NumberParsing.message(), "Error parsing number from string");
    assert_eq!(JsonhError::TokenTypeNotImplemented.message(), "Token type not implemented");
}

#[test]
fn cursor_test() {
    let mut reader = reader("ab");
    assert_eq!(reader.peek(), Some('a'));
    assert_eq!(reader.char_counter, 0);
    assert_eq!(reader.read(), Some('a'));
    assert_eq!(reader.char_counter, 1);
    assert_eq!(reader.read_one('x'), false);
    assert_eq!(reader.char_counter, 1);
    assert_eq!(reader.read_any(&['x', 'y']), None);
    assert_eq!(reader.read_any(&['x', 'b']), Some('b'));
    assert_eq!(reader.char_counter, 2);
    assert_eq!(reader.peek(), None);
    assert_eq!(reader.read(), None);
    assert_eq!(reader.read_one('a'), false);
    assert_eq!(reader.read_any(&['a']), None);
    assert_eq!(reader.char_counter, 2);
}

#[test]
fn constructors_test() {
    let text = "[1]".to_string();
    let from_string = JsonhReader::from_string(&text, JsonhReaderOptions::new());
    let from_chars = JsonhReader::from_chars(text.chars(), JsonhReaderOptions::new());
    let from_vec = JsonhReader::from_peekable_chars(vec!['[', '1', ']'], JsonhReaderOptions::new());
    assert_eq!(from_string.source, vec!['[', '1', ']']);
    assert_eq!(from_chars.source, from_string.source);
    assert_eq!(from_vec.source, from_string.source);
    assert_eq!(from_vec.char_counter, 0);
    assert_eq!(from_vec.depth, 0);
    assert!(matches!(
        JsonhReader::parse_element_from_string(&text, JsonhReaderOptions::new()),
        Ok(JsonhValue::Array(_))
    ));
    assert!(matches!(
        JsonhReader::parse_element_from_peekable_chars(vec!['n', 'u', 'l', 'l'], JsonhReaderOptions::new()),
        Ok(JsonhValue::Null)
    ));
}

#[test]
fn has_token_test() {
    let mut some = reader(" \t\n x");
    assert!(some.has_token());
    assert_eq!(some.char_counter, 4);
    let mut none = reader(" \u{3000}\u{2028}\u{0085} ");
    assert!(!none.has_token());
    assert_eq!(none.char_counter, 5);
    let mut empty = reader("");
    assert!(!empty.has_token());
}

#[test]
fn whitespace_classes_test() {
    for c in [
        '\u{0020}', '\u{00A0}', '\u{1680}', '\u{2000}', '\u{2001}', '\u{2002}', '\u{2003}',
        '\u{2004}', '\u{2005}', '\u{2006}', '\u{2007}', '\u{2008}', '\u{2009}', '\u{200A}',
        '\u{202F}', '\u{205F}', '\u{3000}', '\u{2028}', '\u{2029}', '\u{0009}', '\u{000A}',
        '\u{000B}', '\u{000C}', '\u{000D}', '\u{0085}',
    ] {
        assert!(jsonh_rs::char_classes::char_is_whitespace(c));
        assert_eq!(jsonh_rs::char_classes::char_is_whitespace(c), c.is_whitespace());
    }
    for c in ['a', '0', '\u{200B}', '\u{FEFF}', '\u{001F}', '_'] {
        assert!(!jsonh_rs::char_classes::char_is_whitespace(c));
    }
    for c in ['\n', '\r', '\u{2028}', '\u{2029}'] {
        assert!(jsonh_rs::char_classes::char_is_newline(c));
    }
    assert!(!jsonh_rs::char_classes::char_is_newline('\u{0085}'));
    for c in ['\\', ',', ':', '[', ']', '{', '}', '/', '#', '"', '\''] {
        assert!(jsonh_rs::char_classes::char_is_reserved(c, false));
        assert!(jsonh_rs::char_classes::char_is_reserved(c, true));
    }
    assert!(jsonh_rs::char_classes::char_is_reserved('@', true));
    assert!(!jsonh_rs::char_classes::char_is_reserved('@', false));
    assert!(!jsonh_rs::char_classes::char_is_reserved('a', true));
}

#[test]
fn token_stream_scenario_test() {
    let tokens = reader("{ \"a\": \"b\" }").read_element();
    assert_eq!(
        kinds(&tokens),
        vec![
            JsonTokenType::StartObject,
            JsonTokenType::PropertyName,
            JsonTokenType::String,
            JsonTokenType::EndObject
        ]
    );
    assert_eq!(tokens[1].as_ref().unwrap().value, "a");
    assert_eq!(tokens[2].as_ref().unwrap().value, "b");
}

#[test]
fn depth_returns_to_zero_test() {
    for jsonh in ["{a:{b:[1,[2,{c:d}]]}}", "[[[]]]", "a: [1, 2]", "5", "{}"] {
        let mut reader = reader(jsonh);
        let tokens = reader.read_element();
        assert_eq!(last_error(&tokens), None);
        assert_eq!(reader.depth, 0);
        assert!(nesting_is_balanced(&tokens));
    }
}

#[test]
fn depth_after_error_test() {
    let mut reader = reader("{a:[1,");
    let tokens = reader.read_element();
    assert_eq!(last_error(&tokens), Some(JsonhError::ExpectedArrayEnd));
    assert_eq!(reader.depth, 2);
    assert_eq!(tokens.len(), 5);
}

#[test]
fn comments_between_tokens_test() {
    let tokens = reader("/*a*/ [ #b\n 1 //c\n , /*d*/ ] #e").read_element();
    assert_eq!(
        kinds(&tokens),
        vec![
            JsonTokenType::Comment,
            JsonTokenType::StartArray,
            JsonTokenType::Comment,
            JsonTokenType::Number,
            JsonTokenType::Comment,
            JsonTokenType::Comment,
            JsonTokenType::EndArray,
        ]
    );
    assert_eq!(tokens[0].as_ref().unwrap().value, "a");
    assert_eq!(tokens[2].as_ref().unwrap().value, "b");
    assert_eq!(tokens[4].as_ref().unwrap().value, "c");
    assert_eq!(tokens[5].as_ref().unwrap().value, "d");
}

#[test]
fn comments_after_primitive_test() {
    let mut reader = reader("1 /*a*/ #b");
    let tokens = reader.read_element();
    assert_eq!(
        kinds(&tokens),
        vec![JsonTokenType::Number, JsonTokenType::Comment, JsonTokenType::Comment]
    );
    assert_eq!(reader.char_counter, 10);
}

#[test]
fn braceless_object_token_order_test() {
    let tokens = reader("a /*x*/ : 1").read_element();
    assert_eq!(
        kinds(&tokens),
        vec![
            JsonTokenType::StartObject,
            JsonTokenType::Comment,
            JsonTokenType::PropertyName,
            JsonTokenType::Number,
            JsonTokenType::EndObject,
        ]
    );
    assert_eq!(tokens[2].as_ref().unwrap().value, "a");
}

#[test]
fn property_name_comment_order_test() {
    let tokens = reader("{\"a\" /*x*/ : 1}").read_element();
    assert_eq!(
        kinds(&tokens),
        vec![
            JsonTokenType::StartObject,
            JsonTokenType::Comment,
            JsonTokenType::PropertyName,
            JsonTokenType::Number,
            JsonTokenType::EndObject,
        ]
    );
}

#[test]
fn line_comment_ends_test() {
    let mut hash = reader("# one\r\n2");
    let token = hash.read_comment().unwrap();
    assert_eq!(token.json_type, JsonTokenType::Comment);
    assert_eq!(token.value, " one");
    assert_eq!(hash.char_counter, 6);
    let mut slashes = reader("//two");
    assert_eq!(slashes.read_comment().unwrap().value, "two");
    assert_eq!(slashes.char_counter, 5);
    let mut separator = reader("#a\u{2028}b");
    assert_eq!(separator.read_comment().unwrap().value, "a");
}

#[test]
fn block_comment_test() {
    let mut plain = reader("/* a * / **/x");
    assert_eq!(plain.read_comment().unwrap().value, " a * / *");
    assert_eq!(plain.char_counter, 12);
    let mut nested = reader("/==* a *=/ */ *==/x");
    assert_eq!(nested.read_comment().unwrap().value, " a *=/ */ ");
    assert_eq!(nested.char_counter, 18);
    let mut longer = reader("/=* a *==/ *=/");
    assert_eq!(longer.read_comment().unwrap().value, " a *==/ ");
    let mut v1 = reader_v1("/* a *=/ */");
    assert_eq!(v1.read_comment().unwrap().value, " a *=/ ");
}

#[test]
fn comment_errors_test() {
    assert_eq!(reader("/* abc").read_comment().unwrap_err(), JsonhError::ExpectedEndOfBlockComment);
    assert_eq!(reader("/=* abc */").read_comment().unwrap_err(), JsonhError::ExpectedEndOfBlockComment);
    assert_eq!(reader("/== x").read_comment().unwrap_err(), JsonhError::ExpectedAsteriskAfterNesting);
    assert_eq!(reader("/x").read_comment().unwrap_err(), JsonhError::UnexpectedSlash);
    assert_eq!(reader("/").read_comment().unwrap_err(), JsonhError::UnexpectedSlash);
    assert_eq!(reader_v1("/=* *=/").read_comment().unwrap_err(), JsonhError::UnexpectedSlash);
    assert_eq!(reader("x").read_comment().unwrap_err(), JsonhError::UnexpectedCharacter);
    assert_eq!(reader("").read_comment().unwrap_err(), JsonhError::UnexpectedCharacter);
    assert_eq!(parse_error("[1, /x]"), JsonhError::UnexpectedSlash);
}

#[test]
fn structural_errors_test() {
    assert_eq!(parse_error("{"), JsonhError::ExpectedObjectEnd);
    assert_eq!(parse_error("{a: 1"), JsonhError::ExpectedObjectEnd);
    assert_eq!(parse_error("["), JsonhError::ExpectedArrayEnd);
    assert_eq!(parse_error("[1, 2"), JsonhError::ExpectedArrayEnd);
    assert_eq!(parse_error("{\"a\" 1}"), JsonhError::ExpectedColon);
    assert_eq!(parse_error(""), JsonhError::ExpectedToken);
    assert_eq!(parse_error("  # only a comment"), JsonhError::ExpectedToken);
    assert_eq!(parse_error("{a:}"), JsonhError::EmptyQuotelessString);
    assert_eq!(parse_error("{,}"), JsonhError::EmptyQuotelessString);
    assert_eq!(parse_error("]"), JsonhError::EmptyQuotelessString);
    assert_eq!(reader("").read_primitive_element().unwrap_err(), JsonhError::ExpectedPrimitiveElement);
    let mut tokens: Vec<JsonhToken> = Vec::new();
    assert_eq!(reader("x").read_array(&mut tokens).unwrap_err(), JsonhError::ExpectedArrayStart);
    assert!(tokens.is_empty());
}

#[test]
fn max_depth_errors_test() {
    let shallow = JsonhReaderOptions::new().with_max_depth(1);
    assert!(JsonhReader::parse_element_from_str("[1]", shallow).is_ok());
    assert_eq!(
        JsonhReader::parse_element_from_str("[[1]]", shallow).unwrap_err(),
        JsonhError::ExceededMaxDepth
    );
    assert_eq!(
        JsonhReader::parse_element_from_str("a: {}", shallow).unwrap_err(),
        JsonhError::ExceededMaxDepth
    );
    let none = JsonhReaderOptions::new().with_max_depth(0);
    assert!(JsonhReader::parse_element_from_str("1", none).is_ok());
    assert_eq!(
        JsonhReader::parse_element_from_str("a: 1", none).unwrap_err(),
        JsonhError::ExceededMaxDepth
    );
    let mut reader = JsonhReader::from_str("{", none);
    let tokens = reader.read_element();
    assert_eq!(tokens.len(), 2);
    assert_eq!(tokens[0].as_ref().unwrap().json_type, JsonTokenType::StartObject);
    assert_eq!(last_error(&tokens), Some(JsonhError::ExceededMaxDepth));
    assert_eq!(reader.depth, 1);
    let negative = JsonhReaderOptions::new().with_max_depth(-1);
    assert_eq!(
        JsonhReader::parse_element_from_str("[]", negative).unwrap_err(),
        JsonhError::ExceededMaxDepth
    );
}

#[test]
fn incomplete_inputs_test() {
    let options = JsonhReaderOptions::new().incomplete_inputs(true);
    let mut reader = JsonhReader::from_str("{a: [1, {b: 2", options);
    let tokens = reader.read_element();
    assert_eq!(last_error(&tokens), None);
    assert!(nesting_is_balanced(&tokens));
    assert_eq!(reader.depth, 0);
    assert_eq!(
        kinds(&tokens),
        vec![
            JsonTokenType::StartObject,
            JsonTokenType::PropertyName,
            JsonTokenType::StartArray,
            JsonTokenType::Number,
            JsonTokenType::StartObject,
            JsonTokenType::PropertyName,
            JsonTokenType::Number,
            JsonTokenType::EndObject,
            JsonTokenType::EndArray,
            JsonTokenType::EndObject,
        ]
    );
    assert_eq!(
        JsonhReader::parse_element_from_str("{a: \"b", options).unwrap_err(),
        JsonhError::ExpectedEndOfString
    );
}

#[test]
fn nested_braceless_object_in_incomplete_array_test() {
    let options = JsonhReaderOptions::new().incomplete_inputs(true);
    let tokens = JsonhReader::from_str("[a: b\nc: d]", options).read_element();
    assert_eq!(last_error(&tokens), Some(JsonhError::EmptyQuotelessString));
}

#[test]
fn single_element_test() {
    let single = JsonhReaderOptions::new().with_parse_single_element(true);
    assert_eq!(
        JsonhReader::parse_element_from_str("1\n2", single).unwrap_err(),
        JsonhError::ExpectedEndOfElements
    );
    assert!(matches!(JsonhReader::parse_element_from_str("1\n\n", single), Ok(JsonhValue::Number(_))));
    assert!(JsonhReader::parse_element_from_str("[1] // done\n /* really */ ", single).is_ok());
    assert_eq!(
        JsonhReader::parse_element_from_str("[1] /* open", single).unwrap_err(),
        JsonhError::ExpectedEndOfBlockComment
    );
    assert_eq!(
        JsonhReader::parse_element_from_str("[1] ]", single).unwrap_err(),
        JsonhError::ExpectedEndOfElements
    );
    let mut reader = JsonhReader::from_str("  # a\n x", single);
    let tokens = reader.read_end_of_elements();
    assert_eq!(tokens.len(), 2);
    assert_eq!(tokens[0].as_ref().unwrap().value, " a");
    assert_eq!(last_error(&tokens), Some(JsonhError::ExpectedEndOfElements));
    let mut done = JsonhReader::from_str("  # a\n ", single);
    let tokens = done.read_end_of_elements();
    assert_eq!(tokens.len(), 1);
    assert_eq!(last_error(&tokens), None);
}

#[test]
fn string_errors_test() {
    assert_eq!(parse_error("\"abc"), JsonhError::ExpectedEndOfString);
    assert_eq!(parse_error("'''abc''"), JsonhError::ExpectedEndOfString);
    assert_eq!(parse_error("@ \"a\""), JsonhError::ExpectedStringAfterVerbatim);
    assert_eq!(parse_error("@"), JsonhError::ExpectedStringAfterVerbatim);
    assert_eq!(parse_error("@#a"), JsonhError::ExpectedStringAfterVerbatim);
    assert_eq!(parse_error("@/a"), JsonhError::ExpectedStringAfterVerbatim);
    assert_eq!(parse_error(":"), JsonhError::EmptyQuotelessString);
}

#[test]
fn escape_errors_test() {
    assert_eq!(parse_error("\"\\"), JsonhError::ExpectedEscapeSequence);
    assert_eq!(parse_error("a\\"), JsonhError::ExpectedEscapeSequence);
    assert_eq!(parse_error("\"\\uD83D\\n\""), JsonhError::ExpectedLowSurrogate);
    assert_eq!(parse_error("\"\\u12\""), JsonhError::IncorrectHexDigits);
    assert_eq!(parse_error("\"\\x1"), JsonhError::IncorrectHexDigits);
    assert_eq!(parse_error("\"\\U0001F47\""), JsonhError::IncorrectHexDigits);
    assert_eq!(parse_error("\"\\uD83D\\u0041\""), JsonhError::LowSurrogateOutOfRange);
    assert_eq!(parse_error("\"\\uDC00\""), JsonhError::InvalidHexEscape);
    assert_eq!(parse_error("\"\\uD83D\""), JsonhError::InvalidHexEscape);
    assert_eq!(parse_error("\"\\U00110000\""), JsonhError::InvalidHexEscape);
    assert_eq!(
        JsonhReader::utf16_surrogates_to_code_point(0x0041, 0xDC00),
        Err(JsonhError::HighSurrogateOutOfRange)
    );
    assert_eq!(
        JsonhReader::utf16_surrogates_to_code_point(0xD800, 0xD800),
        Err(JsonhError::LowSurrogateOutOfRange)
    );
}

#[test]
fn surrogate_formula_test() {
    assert_eq!(JsonhReader::utf16_surrogates_to_code_point(0xD83D, 0xDC7D), Ok(0x1F47D));
    assert_eq!(JsonhReader::utf16_surrogates_to_code_point(0xD800, 0xDC00), Ok(0x10000));
    assert_eq!(JsonhReader::utf16_surrogates_to_code_point(0xDBFF, 0xDFFF), Ok(0x10FFFF));
    assert!(JsonhReader::is_utf16_high_surrogate(0xD800));
    assert!(JsonhReader::is_utf16_high_surrogate(0xDBFF));
    assert!(!JsonhReader::is_utf16_high_surrogate(0xDC00));
    assert!(JsonhReader::is_utf16_low_surrogate(0xDC00));
    assert!(JsonhReader::is_utf16_low_surrogate(0xDFFF));
    assert!(!JsonhReader::is_utf16_low_surrogate(0xE000));
}

#[test]
fn escape_values_test() {
    assert_eq!(
        parse_string("\"\\\\ \\b \\f \\n \\r \\t \\v \\0 \\a \\e \\q \\\" \\/\""),
        "\\ \u{08} \u{0C} \n \r \t \u{0B} \0 \u{07} \u{1B} q \" /"
    );
    assert_eq!(parse_string("\"\\x41\\u00e9\\U0001F47D\""), "A\u{e9}\u{1F47D}");
    assert_eq!(parse_string("\"\\uD83D\\uDC7D\""), "\u{1F47D}");
    assert_eq!(parse_string("\"\\uD83D\\U0000DC7D\""), "\u{1F47D}");
    assert_eq!(parse_string("\"a\\\nb\\\r\nc\\\rd\\\u{2028}e\""), "abcde");
    assert_eq!(parse_error("\"\\uD83Dx\""), JsonhError::InvalidHexEscape);
}

#[test]
fn hex_sequence_test() {
    let mut digits = reader("1aF09");
    assert_eq!(digits.read_hex_sequence(4), Ok(0x1AF0));
    assert_eq!(digits.char_counter, 4);
    let mut all = reader("FFFFFFFF");
    assert_eq!(all.read_hex_sequence(8), Ok(0xFFFF_FFFF));
    let mut none = reader("zz");
    assert_eq!(none.read_hex_sequence(0), Ok(0));
    assert_eq!(none.char_counter, 0);
    let mut bad = reader("12g4");
    assert_eq!(bad.read_hex_sequence(4), Err(JsonhError::IncorrectHexDigits));
    assert_eq!(bad.char_counter, 3);
    let mut short = reader("12");
    assert_eq!(short.read_hex_sequence(4), Err(JsonhError::IncorrectHexDigits));
    assert_eq!(short.char_counter, 2);
}

#[test]
fn quoted_string_test() {
    assert_eq!(parse_string("\"\""), "");
    assert_eq!(parse_string("''"), "");
    assert_eq!(parse_string("'a\"b'"), "a\"b");
    assert_eq!(parse_string("\"a'b\""), "a'b");
    assert_eq!(parse_string("\"\"\"a\"b\"\"c\"\"\""), "a\"b\"\"c");
    assert_eq!(parse_string("''''a'''b''''"), "a'''b");
    assert_eq!(parse_string("\"a\nb\""), "a\nb");
    let mut reader = reader("\"\"\"a\"\"\"\"");
    let token = reader.read_string().unwrap();
    assert_eq!(token.value, "a");
    assert_eq!(reader.char_counter, 7);
}

#[test]
fn verbatim_string_scenario_test() {
    assert_eq!(parse_string("@\"a\\\\\""), "a\\\\");
    assert_eq!(parse_string("\"a\\\\\""), "a\\");
    assert_eq!(parse_string("@a\\b"), "a\\b");
    assert_eq!(parse_string("@null"), "null");
    assert!(matches!(
        JsonhReader::parse_element_from_str("@null", JsonhReaderOptions::new().with_version(JsonhVersion::V1)),
        Ok(JsonhValue::String(text)) if text == "@null"
    ));
}

#[test]
fn named_literal_test() {
    let options = JsonhReaderOptions::new();
    assert!(matches!(JsonhReader::parse_element_from_str("null", options), Ok(JsonhValue::Null)));
    assert!(matches!(JsonhReader::parse_element_from_str(" true ", options), Ok(JsonhValue::Bool(true))));
    assert!(matches!(JsonhReader::parse_element_from_str("false", options), Ok(JsonhValue::Bool(false))));
    assert_eq!(parse_string("\"null\""), "null");
    assert_eq!(parse_string("nul\\l"), "null");
    assert_eq!(parse_string("True"), "True");
    assert_eq!(parse_string("null x"), "null x");
    let tokens = reader("null").read_element();
    assert_eq!(tokens[0].as_ref().unwrap().json_type, JsonTokenType::Null);
    assert_eq!(tokens[0].as_ref().unwrap().value, "null");
}

#[test]
fn quoteless_string_test() {
    assert_eq!(parse_string("  hello world  \n next"), "hello world");
    assert_eq!(parse_string("a\u{3000}b\u{00A0}"), "a\u{3000}b");
    assert_eq!(parse_string("a@b"), "a");
    assert!(matches!(
        JsonhReader::parse_element_from_str("a@b", JsonhReaderOptions::new().with_version(JsonhVersion::V1)),
        Ok(JsonhValue::String(text)) if text == "a@b"
    ));
    assert_eq!(parse_string("\\ "), "");
    let mut reader = reader("b c,d");
    let token = reader.read_quoteless_string("a ", false).unwrap();
    assert_eq!(token.value, "a b c");
    assert_eq!(reader.char_counter, 3);
}

#[test]
fn multi_quoted_string_scenario_test() {
    assert_eq!(parse_string("\"\"\"\n  hello world  \"\"\""), "\n  hello world  ");
    assert_eq!(parse_string("\"\"\"\n  a\n  \"\"\""), "a");
    assert_eq!(parse_string("\"\"\"  hello world\n  \"\"\""), "  hello world\n  ");
    assert_eq!(parse_string("'''\n    a\n      b\n   c\n    '''"), "a\n  b\nc");
    assert_eq!(parse_string("'''\n a\n'''"), " a");
    assert_eq!(parse_string("''' \t\r\n\ta\r\n\t'''"), "a");
    assert_eq!(parse_string("'''\n'''"), "");
    assert_eq!(parse_string("'''\n\n'''"), "");
    assert_eq!(parse_string("'''\n  a\n\n  b\n  '''"), "a\n\nb");
    assert_eq!(parse_string("'''\n  a\n \n  b\n  '''"), "a\n\nb");
    assert_eq!(parse_string("'\n  a\n  '"), "\n  a\n  ");
}

#[test]
fn strip_indent_function_test() {
    let strip = |text: &str| -> String {
        jsonh_rs::indent::strip_multi_quoted_indent(text.chars().collect()).into_iter().collect()
    };
    assert_eq!(strip("\n  a\n  "), "a");
    assert_eq!(strip("a\n  b\n  "), "a\n  b\n  ");
    assert_eq!(strip("\n  a\n  b"), "\n  a\n  b");
    assert_eq!(strip("\n a\n    b\n  "), "a\n  b");
    assert_eq!(strip(" \n"), "");
    assert_eq!(strip("\r\n"), "");
    assert_eq!(strip("\n\r\n"), "");
    assert_eq!(strip(""), "");
    let trim = |text: &str| -> String {
        jsonh_rs::indent::trim_whitespace(&text.chars().collect()).into_iter().collect()
    };
    assert_eq!(trim("  a b \n"), "a b");
    assert_eq!(trim(" \t "), "");
    assert_eq!(trim("a"), "a");
}

#[test]
fn number_token_test() {
    for literal in [
        "0", "-0", "+1", "1.5", "1_000", "0x1F", "0XaB", "0b101", "0B1", "0o17", "0O7", "1e5",
        "1E+5", "1.5e-3.5", "0x5e+3", "0x5e3", "0xe", "0_0", "5.", "0b_1", "0x_F", "-0x5",
        "0.04", "0e4", "1e.5", "0xbf", "0xb2",
    ] {
        let mut reader = reader(literal);
        let token = reader.read_number().unwrap();
        assert_eq!(token.json_type, JsonTokenType::Number);
        assert_eq!(token.value, literal);
        assert_eq!(reader.char_counter as usize, literal.len());
    }
}

#[test]
fn number_errors_test() {
    assert_eq!(reader("0x").read_number().unwrap_err(), JsonhError::EmptyNumber);
    assert_eq!(reader("").read_number().unwrap_err(), JsonhError::EmptyNumber);
    assert_eq!(reader("-").read_number().unwrap_err(), JsonhError::EmptyNumber);
    assert_eq!(reader("1e").read_number().unwrap_err(), JsonhError::EmptyNumber);
    assert_eq!(reader("0bz").read_number().unwrap_err(), JsonhError::EmptyNumber);
    assert_eq!(reader(".").read_number().unwrap_err(), JsonhError::NumberWithoutDigit);
    assert_eq!(reader("-.").read_number().unwrap_err(), JsonhError::NumberWithoutDigit);
    assert_eq!(reader("_1").read_number().unwrap_err(), JsonhError::LeadingUnderscore);
    assert_eq!(reader("1e_1").read_number().unwrap_err(), JsonhError::LeadingUnderscore);
    assert_eq!(reader("1_").read_number().unwrap_err(), JsonhError::TrailingUnderscore);
    assert_eq!(reader("1.2.3").read_number().unwrap_err(), JsonhError::DuplicateDot);
    assert_eq!(reader("1_.2").read_number().unwrap_err(), JsonhError::DotAfterUnderscore);
    assert_eq!(reader("1._2").read_number().unwrap_err(), JsonhError::UnderscoreAfterDot);
    assert_eq!(reader("0xe+1").read_number().unwrap_err(), JsonhError::MissingDigitBeforeExponent);
    let mut duplicate = reader("1.2.3");
    assert!(duplicate.read_number().is_err());
    assert_eq!(duplicate.char_counter, 4);
}

#[test]
fn number_or_string_test() {
    let tokens = reader("[1, 2, 3 4 5,6]").read_element();
    assert_eq!(
        kinds(&tokens),
        vec![
            JsonTokenType::StartArray,
            JsonTokenType::Number,
            JsonTokenType::Number,
            JsonTokenType::String,
            JsonTokenType::Number,
            JsonTokenType::EndArray,
        ]
    );
    assert_eq!(tokens[3].as_ref().unwrap().value, "3 4 5");
    assert_eq!(parse_string("."), ".");
    assert_eq!(parse_string("-."), "-.");
    assert_eq!(parse_string("1.2.3"), "1.2.3");
    assert_eq!(parse_string("12 apples"), "12 apples");
    assert_eq!(parse_string("5 \\n"), "5");
    let mut reader = reader("7  \n8");
    let token = reader.read_primitive_element().unwrap();
    assert_eq!(token.json_type, JsonTokenType::Number);
    assert_eq!(token.value, "7");
    assert_eq!(reader.char_counter, 3);
}

#[test]
fn number_parts_test() {
    let hex = JsonhNumberParser::parse("0x5e+3".to_string()).unwrap();
    assert_eq!(hex.negative, false);
    assert_eq!(hex.base, 16);
    assert!(matches!(
        &hex.mantissa,
        JsonhNumberPart::Digits { negative: false, whole, fraction } if *whole == vec![5u8] && fraction.is_empty()
    ));
    assert!(matches!(
        &hex.exponent,
        Some(JsonhNumberPart::Digits { negative: false, whole, fraction }) if *whole == vec![3u8] && fraction.is_empty()
    ));
    let plain = JsonhNumberParser::parse("0x5e3".to_string()).unwrap();
    assert!(matches!(
        &plain.mantissa,
        JsonhNumberPart::Digits { whole, .. } if *whole == vec![5u8, 14u8, 3u8]
    ));
    assert!(plain.exponent.is_none());
    let binary = JsonhNumberParser::parse("-0b_1_01.1e-1".to_string()).unwrap();
    assert_eq!(binary.negative, true);
    assert_eq!(binary.base, 2);
    assert!(matches!(
        &binary.mantissa,
        JsonhNumberPart::Digits { negative: false, whole, fraction } if *whole == vec![1u8, 0u8, 1u8] && *fraction == vec![1u8]
    ));
    assert!(matches!(
        &binary.exponent,
        Some(JsonhNumberPart::Digits { negative: true, whole, .. }) if *whole == vec![1u8]
    ));
    let decimal = JsonhNumberParser::parse("+1_0.5e3.0".to_string()).unwrap();
    assert_eq!(decimal.negative, false);
    assert_eq!(decimal.base, 10);
    assert!(matches!(&decimal.mantissa, JsonhNumberPart::Decimal(text) if text == "10.5"));
    assert!(matches!(&decimal.exponent, Some(JsonhNumberPart::Decimal(text)) if text == "3.0"));
    let upper = JsonhNumberParser::parse("0xAbC".to_string()).unwrap();
    assert!(matches!(
        &upper.mantissa,
        JsonhNumberPart::Digits { whole, .. } if *whole == vec![10u8, 11u8, 12u8]
    ));
    let octal = JsonhNumberParser::parse("0o17".to_string()).unwrap();
    assert_eq!(octal.base, 8);
    assert_eq!(JsonhNumberParser::parse("0b12".to_string()).unwrap_err(), JsonhError::InvalidDigit);
    assert_eq!(JsonhNumberParser::parse("0o8".to_string()).unwrap_err(), JsonhError::InvalidDigit);
    assert_eq!(JsonhNumberParser::parse("0x1.g".to_string()).unwrap_err(), JsonhError::InvalidDigit);
    assert_eq!(JsonhNumberParser::parse("0x1.2.3".to_string()).unwrap_err(), JsonhError::InvalidDigit);
}

#[test]
fn value_tree_test() {
    let value = JsonhReader::parse_element_from_str(
        "{a: {b: [1, {c: null}], d: true}, e: \"x\"}",
        JsonhReaderOptions::new(),
    )
    .unwrap();
    let JsonhValue::Object(root) = value else { panic!("not an object") };
    assert_eq!(root.len(), 2);
    assert_eq!(root[0].name, "a");
    assert_eq!(root[1].name, "e");
    assert!(matches!(&root[1].value, JsonhValue::String(text) if text == "x"));
    let JsonhValue::Object(a) = &root[0].value else { panic!("not an object") };
    assert_eq!(a.len(), 2);
    assert_eq!(a[0].name, "b");
    assert!(matches!(&a[1].value, JsonhValue::Bool(true)));
    let JsonhValue::Array(b) = &a[0].value else { panic!("not an array") };
    assert_eq!(b.len(), 2);
    assert!(matches!(&b[0], JsonhValue::Number(literal) if literal == "1"));
    let JsonhValue::Object(inner) = &b[1] else { panic!("not an object") };
    assert_eq!(inner.len(), 1);
    assert_eq!(inner[0].name, "c");
    assert!(matches!(&inner[0].value, JsonhValue::Null));
}

#[test]
fn duplicate_property_replaces_in_place_test() {
    let value = JsonhReader::parse_element_from_str("{a:1, c:2, a:3}", JsonhReaderOptions::new()).unwrap();
    let JsonhValue::Object(root) = value else { panic!("not an object") };
    assert_eq!(root.len(), 2);
    assert_eq!(root[0].name, "a");
    assert!(matches!(&root[0].value, JsonhValue::Number(literal) if literal == "3"));
    assert_eq!(root[1].name, "c");
    assert!(matches!(&root[1].value, JsonhValue::Number(literal) if literal == "2"));
}

#[test]
fn builder_steps_test() {
    let mut builder = JsonhValueBuilder::new();
    assert!(matches!(builder.accept(&JsonhToken::new_empty(JsonTokenType::Comment)), Ok(None)));
    assert!(matches!(builder.accept(&JsonhToken::new_empty(JsonTokenType::StartArray)), Ok(None)));
    assert!(matches!(builder.accept(&JsonhToken::new(JsonTokenType::Number, "1".to_string())), Ok(None)));
    assert!(matches!(builder.accept(&JsonhToken::new_empty(JsonTokenType::StartObject)), Ok(None)));
    assert!(matches!(builder.accept(&JsonhToken::new(JsonTokenType::PropertyName, "a".to_string())), Ok(None)));
    assert!(matches!(builder.accept(&JsonhToken::new(JsonTokenType::True, "true".to_string())), Ok(None)));
    assert!(matches!(builder.accept(&JsonhToken::new_empty(JsonTokenType::EndObject)), Ok(None)));
    let done = builder.accept(&JsonhToken::new_empty(JsonTokenType::EndArray)).unwrap().unwrap();
    let JsonhValue::Array(items) = done else { panic!("not an array") };
    assert_eq!(items.len(), 2);
    assert!(matches!(&items[1], JsonhValue::Object(properties) if properties.len() == 1 && properties[0].name == "a"));
}

#[test]
fn builder_errors_test() {
    let mut end_first = JsonhValueBuilder::new();
    assert_eq!(
        end_first.accept(&JsonhToken::new_empty(JsonTokenType::EndObject)).unwrap_err(),
        JsonhError::TokenTypeNotImplemented
    );
    let mut nameless = JsonhValueBuilder::new();
    assert!(nameless.accept(&JsonhToken::new_empty(JsonTokenType::StartObject)).is_ok());
    assert_eq!(
        nameless.accept(&JsonhToken::new(JsonTokenType::String, "x".to_string())).unwrap_err(),
        JsonhError::TokenTypeNotImplemented
    );
    let mut named_item = JsonhValueBuilder::new();
    assert!(named_item.accept(&JsonhToken::new_empty(JsonTokenType::StartArray)).is_ok());
    assert!(named_item.accept(&JsonhToken::new(JsonTokenType::PropertyName, "a".to_string())).is_ok());
    assert_eq!(
        named_item.accept(&JsonhToken::new_empty(JsonTokenType::StartArray)).unwrap_err(),
        JsonhError::TokenTypeNotImplemented
    );
    let tokens = vec![JsonhToken::new_empty(JsonTokenType::StartArray)];
    assert_eq!(
        jsonh_rs::jsonh_value_builder::build_value(&tokens, Ok(())).unwrap_err(),
        JsonhError::ExpectedToken
    );
    assert_eq!(
        jsonh_rs::jsonh_value_builder::build_value(&tokens, Err(JsonhError::ExpectedArrayEnd)).unwrap_err(),
        JsonhError::ExpectedArrayEnd
    );
}

#[test]
fn find_property_value_test() {
    let jsonh = r#"
        {
            "a": "1",
            "b": {
                "c": "2"
            },
            "c":/* here */ "3"
        }
        "#;
    let mut reader = reader(jsonh);
    assert!(reader.find_property_value("c"));
    assert_eq!(reader.depth, 1);
    assert!(matches!(reader.parse_element(), Ok(JsonhValue::String(text)) if text == "3"));
    let mut missing = self::reader(jsonh);
    assert!(!missing.find_property_value("d"));
    assert_eq!(missing.depth, 0);
    let mut first = self::reader(jsonh);
    assert!(first.find_property_value("a"));
    assert!(matches!(first.parse_element(), Ok(JsonhValue::String(text)) if text == "1"));
}

#[test]
fn find_property_value_braceless_test() {
    let mut first = reader("a: 1\nb: 2");
    assert!(first.find_property_value("a"));
    assert_eq!(first.char_counter, 2);
    assert_eq!(first.depth, 1);
    let mut second = reader("a: 1\nb: 2");
    assert!(second.find_property_value("b"));
    assert!(matches!(second.parse_element(), Ok(JsonhValue::Number(literal)) if literal == "2"));
    let mut number_name = reader("12: x");
    assert!(number_name.find_property_value("12"));
    let mut none = reader("a: 1\nb: 2");
    assert!(!none.find_property_value("c"));
    assert_eq!(none.depth, 0);
}

#[test]
fn find_property_value_failures_test() {
    assert!(!reader("[{a: 1}]").find_property_value("a"));
    assert!(!reader("a").find_property_value("a"));
    assert!(!reader("").find_property_value("a"));
    assert!(!reader("{b: [1, c: 2").find_property_value("c"));
    assert!(!reader("{b: /* open").find_property_value("c"));
    assert!(!reader("{b 1, c: 2}").find_property_value("c"));
    let deep = JsonhReaderOptions::new().with_max_depth(0);
    assert!(!JsonhReader::from_str("{a: 1}", deep).find_property_value("a"));
    assert!(!JsonhReader::from_str("a: 1", deep).find_property_value("a"));
    let mut open = JsonhReader::from_str("{b: 1", JsonhReaderOptions::new().incomplete_inputs(true));
    assert!(!open.find_property_value("c"));
    assert_eq!(open.depth, 0);
    let mut closed = reader("{b: 1");
    assert!(!closed.find_property_value("c"));
    assert_eq!(closed.depth, 1);
}

#[test]
fn trailing_comma_test() {
    let value = JsonhReader::parse_element_from_str("[1, 2, ]", JsonhReaderOptions::new()).unwrap();
    assert!(matches!(value, JsonhValue::Array(items) if items.len() == 2));
    let value = JsonhReader::parse_element_from_str("{a: 1, }", JsonhReaderOptions::new()).unwrap();
    assert!(matches!(value, JsonhValue::Object(properties) if properties.len() == 1));
    assert_eq!(parse_error("[1,,2]"), JsonhError::EmptyQuotelessString);
}

#[test]
fn comments_and_whitespace_do_not_change_value_test() {
    let plain = "{a: [1, \"x\"], b: null}";
    let spaced = "  \n\t{ a :\n[ 1 ,\u{3000}\"x\" ] ,\r\n b : null }  ";
    let commented = "# start\n{/*1*/a/*2*/:/*3*/[1,/=*4*=/\"x\"//5\n],b:null#6\n}";
    let options = JsonhReaderOptions::new();
    let expected = format!("{:?}", JsonhReader::parse_element_from_str(plain, options).unwrap());
    assert_eq!(format!("{:?}", JsonhReader::parse_element_from_str(spaced, options).unwrap()), expected);
    assert_eq!(format!("{:?}", JsonhReader::parse_element_from_str(commented, options).unwrap()), expected);
    let tokens = reader(commented).read_element();
    let mut without_comments: Vec<JsonhToken> = Vec::new();
    for token in &tokens {
        let token = token.as_ref().unwrap();
        if token.json_type != JsonTokenType::Comment {
            without_comments.push(token.clone());
        }
    }
    assert_eq!(without_comments.len(), 9);
    assert_eq!(
        format!("{:?}", jsonh_rs::jsonh_value_builder::build_value(&without_comments, Ok(())).unwrap()),
        expected
    );
}

#[test]
fn number_literal_holds_digit_test() {
    for jsonh in ["1", "-.5", "0x_F", "1_0e+2", "0b1.", "5e.5"] {
        let token = reader(jsonh).read_number().unwrap();
        assert!(token.value.chars().any(|c| !matches!(c, '.' | '-' | '+' | '_')));
    }
}
