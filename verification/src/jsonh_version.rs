//! The versions of JSONH.
use vstd::prelude::*;

verus! {

/// The major versions of the JSONH specification.
#[derive(Clone, Copy, Debug, PartialEq, Eq, Structural)]
pub enum JsonhVersion {
    /// Indicates that the latest version should be used (currently `V2`).
    Latest,
    /// Version 1 of the specification, released 2025/03/19.
    V1,
    /// Version 2 of the specification, released 2025/11/19.
    V2,
}

impl JsonhVersion {
    /// The number of the version that this value stands for: `Latest` stands
    /// for the highest version defined.
    pub open spec fn spec_number(self) -> nat {
        match self {
            JsonhVersion::Latest => 2,
            JsonhVersion::V1 => 1,
            JsonhVersion::V2 => 2,
        }
    }

    /// Returns the number of the version, resolving `Latest`.
    pub fn number(self) -> (n: u32)
        ensures
            n == self.spec_number(),
    {
        match self {
            JsonhVersion::Latest => 2,
            JsonhVersion::V1 => 1,
            JsonhVersion::V2 => 2,
        }
    }
}

} // verus!
