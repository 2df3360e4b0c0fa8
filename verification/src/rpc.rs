//! The common methods of the node's API: which they are, and what the
//! version method reports.

use crate::version::ShiftingVersion;
use vstd::prelude::*;

verus! {

/// The versions of the API under which a method is offered.
#[derive(Clone, Copy, Debug, PartialEq, Eq, Structural)]
pub enum ApiVersion {
    V0,
    V1,
}

/// The returned session UUID uniquely identifies the API node.
#[derive(Clone, Copy, Debug, PartialEq, Eq, Structural)]
pub enum Session {
    /// The method itself: the type stands for it and has no other value.
    Method,
}

/// The method that reports the node's version.
#[derive(Clone, Copy, Debug, PartialEq, Eq, Structural)]
pub enum Version {
    /// The method itself: the type stands for it and has no other value.
    Method,
}

/// The method that asks the node to shut down.
#[derive(Clone, Copy, Debug, PartialEq, Eq, Structural)]
pub enum Shutdown {
    /// The method itself: the type stands for it and has no other value.
    Method,
}

/// The method that reports when the node was started.
#[derive(Clone, Copy, Debug, PartialEq, Eq, Structural)]
pub enum StartTime {
    /// The method itself: the type stands for it and has no other value.
    Method,
}

/// Represents the current version of the API.
#[derive(Debug)]
pub struct PublicVersion {
    pub version: String,
    pub api_version: ShiftingVersion,
    pub block_delay: u32,
}

impl Session {
    pub const NAME: &'static str = "Filecoin.Session";

    pub const PARAMS: usize = 0;

    pub const API_VERSION: ApiVersion = ApiVersion::V0;
}

impl Version {
    pub const NAME: &'static str = "Filecoin.Version";

    pub const PARAMS: usize = 0;

    pub const API_VERSION: ApiVersion = ApiVersion::V0;

    /// What the version method reports: the node's version as text, the
    /// three numbers of that version packed into one, and the delay between
    /// blocks on the node's chain.
    pub fn handle(version: String, major: u64, minor: u64, patch: u64, block_delay_secs: u32) -> (reported:
        PublicVersion)
        ensures
            reported.version@ == version@,
            reported.api_version@ == crate::version::packed_version(major, minor, patch),
            reported.block_delay == block_delay_secs,
    {
        PublicVersion {
            version,
            api_version: ShiftingVersion::new(major, minor, patch),
            block_delay: block_delay_secs,
        }
    }
}

impl Shutdown {
    pub const NAME: &'static str = "Filecoin.Shutdown";

    pub const PARAMS: usize = 0;

    pub const API_VERSION: ApiVersion = ApiVersion::V0;
}

impl StartTime {
    pub const NAME: &'static str = "Filecoin.StartTime";

    pub const PARAMS: usize = 0;

    pub const API_VERSION: ApiVersion = ApiVersion::V0;
}

/// The names of the common methods, in the order in which they are
/// registered.
pub fn method_names() -> (names: Vec<&'static str>)
    ensures
        names@.len() == 4,
        names@[0]@ == Session::NAME@,
        names@[1]@ == Version::NAME@,
        names@[2]@ == Shutdown::NAME@,
        names@[3]@ == StartTime::NAME@,
{
    let mut names: Vec<&'static str> = Vec::new();
    names.push(Session::NAME);
    names.push(Version::NAME);
    names.push(Shutdown::NAME);
    names.push(StartTime::NAME);
    names
}

} // verus!
