//! A tokenizer and value builder for JSONH, a human-friendly superset of JSON.
//!
//! The reader turns characters into tokens and tokens into a value tree. Every
//! routine carries a contract over a mathematical model of the input: a
//! sequence of characters and a position in it.
#![verifier::loop_isolation(false)]

pub mod acceptance;
pub mod balance;
pub mod char_classes;
pub mod comments;
pub mod elements;
pub mod escapes;
pub mod indent;
pub mod json_token_type;
pub mod jsonh_error;
pub mod jsonh_number_parser;
pub mod jsonh_reader;
pub mod jsonh_reader_options;
pub mod jsonh_token;
pub mod jsonh_value;
pub mod jsonh_value_builder;
pub mod jsonh_version;
pub mod numbers;
pub mod parsing;
pub mod property_search;
pub mod strings;
pub mod text;

pub use self::json_token_type::JsonTokenType;
pub use self::jsonh_error::JsonhError;
pub use self::jsonh_number_parser::{JsonhNumber, JsonhNumberParser, JsonhNumberPart};
pub use self::jsonh_reader::JsonhReader;
pub use self::jsonh_reader_options::JsonhReaderOptions;
pub use self::jsonh_token::JsonhToken;
pub use self::jsonh_value::{JsonhProperty, JsonhValue};
pub use self::jsonh_value_builder::JsonhValueBuilder;
pub use self::jsonh_version::JsonhVersion;
