//! Generic page-permission flags, independent of the paging hardware.

use vstd::prelude::*;

verus! {

/// A set of generic mapping permissions.  The architecture layer translates
/// these into hardware page-table bits.
#[derive(Copy, Clone, PartialEq, Eq, Structural, Debug)]
pub struct PageFlags {
    pub bits: u32,
}

impl PageFlags {
    pub open spec fn spec_read() -> PageFlags {
        PageFlags { bits: 1u32 }
    }

    pub open spec fn spec_write() -> PageFlags {
        PageFlags { bits: 2u32 }
    }

    pub open spec fn spec_execute() -> PageFlags {
        PageFlags { bits: 4u32 }
    }

    pub open spec fn spec_user() -> PageFlags {
        PageFlags { bits: 8u32 }
    }

    #[verifier::when_used_as_spec(spec_read)]
    pub fn read() -> (r: PageFlags)
        ensures r == Self::spec_read(),
    {
        PageFlags { bits: 1 }
    }

    #[verifier::when_used_as_spec(spec_write)]
    pub fn write() -> (r: PageFlags)
        ensures r == Self::spec_write(),
    {
        PageFlags { bits: 2 }
    }

    #[verifier::when_used_as_spec(spec_execute)]
    pub fn execute() -> (r: PageFlags)
        ensures r == Self::spec_execute(),
    {
        PageFlags { bits: 4 }
    }

    #[verifier::when_used_as_spec(spec_user)]
    pub fn user() -> (r: PageFlags)
        ensures r == Self::spec_user(),
    {
        PageFlags { bits: 8 }
    }

    pub open spec fn spec_contains(self, other: PageFlags) -> bool {
        self.bits & other.bits == other.bits
    }

    /// Whether every flag of `other` is set in `self`.
    #[verifier::when_used_as_spec(spec_contains)]
    pub fn contains(self, other: PageFlags) -> (r: bool)
        ensures r == self.spec_contains(other),
    {
        self.bits & other.bits == other.bits
    }

    pub open spec fn spec_union(self, other: PageFlags) -> PageFlags {
        PageFlags { bits: self.bits | other.bits }
    }

    /// The union of two flag sets.
    #[verifier::when_used_as_spec(spec_union)]
    pub fn union(self, other: PageFlags) -> (r: PageFlags)
        ensures r == self.spec_union(other),
    {
        PageFlags { bits: self.bits | other.bits }
    }
}

} // verus!
