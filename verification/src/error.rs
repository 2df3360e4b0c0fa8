//! What can go wrong in a migration, and where.

use crate::hash::CodeId;
use vstd::prelude::*;

verus! {

/// The classes of failure. Each one ends the run.
#[derive(Clone, Copy, Debug, PartialEq, Eq, Structural)]
pub enum ErrorKind {
    /// No migrator is registered for an actor's code identifier.
    UnknownActorType,
    /// An old record's bytes do not decode into the old schema.
    MalformedRecord,
    /// The new value could not be derived from the old one.
    ConversionFailure,
    /// The block store could not be read or written, or does not hold a
    /// block that was asked of it.
    StoreIoFailure,
    /// The computed root differs from the one that was expected.
    VerificationMismatch,
}

/// The step of the run at which a failure came up.
#[derive(Clone, Copy, Debug, PartialEq, Eq, Structural)]
pub enum Stage {
    /// Finding the migrator for an actor.
    Resolve,
    /// Reading a block from the content store.
    Fetch,
    /// Decoding an old record.
    Decode,
    /// Deriving the new value.
    Convert,
    /// Encoding the new value.
    Encode,
    /// Writing what a run made to the block store.
    Store,
    /// Comparing the new root with the expected one.
    Verify,
}

/// A failure, with the actor it concerns where it concerns one.
#[derive(Debug)]
pub struct MigrationError {
    pub kind: ErrorKind,
    pub stage: Stage,
    pub address: Option<u64>,
    pub code: Option<CodeId>,
}

/// A failure as a plain value.
pub struct MigrationErrorView {
    pub kind: ErrorKind,
    pub stage: Stage,
    pub address: Option<u64>,
    pub code: Option<Seq<u8>>,
}

impl View for MigrationError {
    type V = MigrationErrorView;

    open spec fn view(&self) -> MigrationErrorView {
        MigrationErrorView {
            kind: self.kind,
            stage: self.stage,
            address: self.address,
            code: crate::hash::hash_view(self.code),
        }
    }
}

impl MigrationError {
    /// A failure that concerns one actor.
    pub fn at(kind: ErrorKind, stage: Stage, address: u64, code: &CodeId) -> (e: Self)
        ensures
            e@ == actor_failure(kind, stage, address, code@),
    {
        MigrationError { kind, stage, address: Some(address), code: Some(code.clone()) }
    }

    /// A failure that concerns the run as a whole.
    pub fn of_run(kind: ErrorKind, stage: Stage) -> (e: Self)
        ensures
            e@ == run_failure(kind, stage),
    {
        MigrationError { kind, stage, address: None, code: None }
    }
}

/// The failure of a kind at a stage for the actor at an address.
pub open spec fn actor_failure(
    kind: ErrorKind,
    stage: Stage,
    address: u64,
    code: Seq<u8>,
) -> MigrationErrorView {
    MigrationErrorView { kind, stage, address: Some(address), code: Some(code) }
}

/// A failure by its kind and stage, before it is known which actor it
/// concerns.
pub type Failure = (ErrorKind, Stage);

/// The failure of a kind at a stage that concerns no single actor.
pub open spec fn run_failure(kind: ErrorKind, stage: Stage) -> MigrationErrorView {
    MigrationErrorView { kind, stage, address: None, code: None }
}

} // verus!
