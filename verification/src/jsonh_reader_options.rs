//! The options of a reader.
use vstd::prelude::*;
use crate::jsonh_version::JsonhVersion;

verus! {

/// Options for a `JsonhReader`.
#[derive(Clone, Copy, Debug)]
pub struct JsonhReaderOptions {
    /// Specifies the major version of the JSONH specification to use.
    pub version: JsonhVersion,
    /// Enables/disables checks for exactly one element when parsing.
    ///
    /// This option does not apply when reading elements, only when parsing elements.
    pub parse_single_element: bool,
    /// Sets the maximum recursion depth allowed when reading JSONH.
    ///
    /// The default value is 64 to defend against deeply nested input.
    pub max_depth: i32,
    /// Enables/disables parsing unclosed inputs: the end of the input then
    /// closes every object and array that is still open.
    pub incomplete_inputs: bool,
}

impl JsonhReaderOptions {
    /// The default options: latest version, any number of elements, depth 64,
    /// complete inputs only.
    pub open spec fn spec_new() -> Self {
        JsonhReaderOptions {
            version: JsonhVersion::Latest,
            parse_single_element: false,
            max_depth: 64,
            incomplete_inputs: false,
        }
    }

    /// Whether the version of these options is at least `minimum_version`.
    pub open spec fn spec_supports_version(self, minimum_version: JsonhVersion) -> bool {
        self.version.spec_number() >= minimum_version.spec_number()
    }

    /// Whether these options enable the syntax added in version 2.
    pub open spec fn v2(self) -> bool {
        self.spec_supports_version(JsonhVersion::V2)
    }

    /// Constructs a `JsonhReaderOptions` with the default values.
    pub fn new() -> (r: Self)
        ensures
            r == Self::spec_new(),
    {
        JsonhReaderOptions {
            version: JsonhVersion::Latest,
            parse_single_element: false,
            max_depth: 64,
            incomplete_inputs: false,
        }
    }

    /// Returns whether `version` is greater than or equal to `minimum_version`.
    pub fn supports_version(&self, minimum_version: JsonhVersion) -> (r: bool)
        ensures
            r == self.spec_supports_version(minimum_version),
    {
        self.version.number() >= minimum_version.number()
    }

    /// Specifies the major version of the JSONH specification to use.
    pub fn with_version(self, value: JsonhVersion) -> (r: Self)
        ensures
            r == (JsonhReaderOptions { version: value, ..self }),
    {
        let mut options = self;
        options.version = value;
        options
    }

    /// Enables/disables checks for exactly one element when parsing.
    pub fn with_parse_single_element(self, value: bool) -> (r: Self)
        ensures
            r == (JsonhReaderOptions { parse_single_element: value, ..self }),
    {
        let mut options = self;
        options.parse_single_element = value;
        options
    }

    /// Sets the maximum recursion depth allowed when reading JSONH.
    pub fn with_max_depth(self, value: i32) -> (r: Self)
        ensures
            r == (JsonhReaderOptions { max_depth: value, ..self }),
    {
        let mut options = self;
        options.max_depth = value;
        options
    }

    /// Enables/disables parsing unclosed inputs.
    pub fn incomplete_inputs(self, value: bool) -> (r: Self)
        ensures
            r == (JsonhReaderOptions { incomplete_inputs: value, ..self }),
    {
        let mut options = self;
        options.incomplete_inputs = value;
        options
    }
}

} // verus!
