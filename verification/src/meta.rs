//! Format versions of stored data.
use vstd::prelude::*;

verus! {

/// A format version.
#[derive(Debug, Clone, Copy, PartialEq, Eq)]
pub struct Version {
    pub major: u32,
    pub minor: u32,
}

impl Version {
    /// Whether data of format `other` can be read by a program of format
    /// `self`: the same major version, and no newer minor version.
    pub open spec fn spec_is_compatible(self, other: Version) -> bool {
        self.major == other.major && other.minor <= self.minor
    }

    /// Whether data of format `other` can be read by a program of format `self`.
    pub fn is_compatible(self, other: Version) -> (r: bool)
        ensures
            r == self.spec_is_compatible(other),
    {
        self.major == other.major && other.minor <= self.minor
    }

    /// Whether two versions are the same.
    pub fn same(self, other: Version) -> (r: bool)
        ensures
            r == (self == other),
    {
        self.major == other.major && self.minor == other.minor
    }
}

} // verus!
