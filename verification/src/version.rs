//! Version information reported by a node.

use vstd::prelude::*;

verus! {

/// Integer based value on version information. Highest order bits for Major,
/// Mid order for Minor and lowest for Patch.
#[derive(Debug, Clone)]
pub struct ShiftingVersion(u32);

/// The packed value of a version: each component is cut to 32 bits, the major
/// number is moved up by 16 bits, the minor number by 8, and the three are
/// joined bit by bit.
pub open spec fn packed_version(major: u64, minor: u64, patch: u64) -> u32 {
    ((major as u32) << 16) | ((minor as u32) << 8) | (patch as u32)
}

impl ShiftingVersion {
    /// The packed value.
    pub closed spec fn view(&self) -> u32 {
        self.0
    }

    pub fn new(major: u64, minor: u64, patch: u64) -> (v: Self)
        ensures
            v@ == packed_version(major, minor, patch),
    {
        let hi: u32 = #[verifier::truncate] (major as u32);
        let mid: u32 = #[verifier::truncate] (minor as u32);
        let lo: u32 = #[verifier::truncate] (patch as u32);
        ShiftingVersion((hi << 16) | (mid << 8) | lo)
    }

    /// The packed value as an integer.
    pub fn value(&self) -> (n: u32)
        ensures
            n == self@,
    {
        self.0
    }
}

/// Where each component fits its field, the packed value is the positional
/// number with base 256 for patch and minor and the major number above them.
pub proof fn lemma_packed_version_positional(major: u64, minor: u64, patch: u64)
    requires
        major < 0x1_0000,
        minor < 0x100,
        patch < 0x100,
    ensures
        packed_version(major, minor, patch) == major * 0x1_0000 + minor * 0x100 + patch,
{
    assert(((major as u32) << 16) | ((minor as u32) << 8) | (patch as u32) == major * 0x1_0000
        + minor * 0x100 + patch) by (bit_vector)
        requires
            major < 0x1_0000,
            minor < 0x100,
            patch < 0x100,
    ;
}

} // verus!
