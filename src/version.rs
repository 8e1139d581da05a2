//! Version tokens and their archived form.
use vstd::prelude::*;

verus! {

/// A version identifier holding the minor version of an evolution.
///
/// Versions of one line are totally ordered by their number.
#[derive(Copy, Clone, Debug, PartialEq, Eq, Structural)]
pub struct Version(pub u16);

impl Version {
    /// Creates a version from its minor version number.
    pub fn new(minor: u16) -> (r: Self)
        ensures
            r.0 == minor,
    {
        Version(minor)
    }

    /// The archived form of this version.
    pub fn archive(&self) -> (r: ArchivedVersion)
        ensures
            r.0 == self.0,
    {
        ArchivedVersion(self.0)
    }
}

/// The archived form of a [`Version`].
#[derive(Copy, Clone, Debug, PartialEq, Eq, Structural)]
pub struct ArchivedVersion(pub u16);

impl ArchivedVersion {
    /// The version that this archived value stands for.
    pub fn unarchived(&self) -> (r: Version)
        ensures
            r.0 == self.0,
    {
        Version(self.0)
    }
}

} // verus!
