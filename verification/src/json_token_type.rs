//! The kinds of token.
use vstd::prelude::*;

verus! {

/// The kinds of token that a JSONH reader produces.
#[derive(Clone, Copy, Debug, PartialEq, Eq, Structural)]
pub enum JsonTokenType {
    /// The start of an object: `{`, or the start of a braceless object.
    StartObject,
    /// The end of an object: `}`, or the end of the input in a braceless object.
    EndObject,
    /// The start of an array: `[`.
    StartArray,
    /// The end of an array: `]`.
    EndArray,
    /// A property name in an object; the token's value is the decoded name.
    PropertyName,
    /// A comment; the token's value is its body without the delimiters.
    Comment,
    /// A string; the token's value is the decoded text.
    String,
    /// A number; the token's value is the literal as it was read.
    Number,
    /// The named literal `true`.
    True,
    /// The named literal `false`.
    False,
    /// The named literal `null`.
    Null,
}

impl JsonTokenType {
    /// Whether a token of this kind opens an object or an array.
    pub open spec fn is_start(self) -> bool {
        self == JsonTokenType::StartObject || self == JsonTokenType::StartArray
    }

    /// Whether a token of this kind closes an object or an array.
    pub open spec fn is_end(self) -> bool {
        self == JsonTokenType::EndObject || self == JsonTokenType::EndArray
    }

    /// Whether a token of this kind is a value without parts: a string, a
    /// number or a named literal.
    pub open spec fn is_primitive(self) -> bool {
        self == JsonTokenType::String || self == JsonTokenType::Number || self
            == JsonTokenType::True || self == JsonTokenType::False || self == JsonTokenType::Null
    }
}

} // verus!
