//! The registry of an upgrade: which migrator is responsible for which code
//! identifier, and the rest of what an upgrade lays down.

use crate::hash::{CodeId, ContentHash};
use crate::migrator::{MigratorHandle, MigratorHandleView};
use crate::network::NetworkVersion;
use crate::store::{first_wins, lemma_first_wins_absent, lemma_first_wins_found};
use vstd::prelude::*;

verus! {

/// What becomes of an actor whose code identifier the registry does not know.
#[derive(Clone, Copy, Debug, PartialEq, Eq, Structural)]
pub enum UnknownPolicy {
    /// The actor's record goes into the new tree as it is.
    PassThrough,
    /// The run fails.
    HardError,
}

/// One registration.
#[derive(Debug)]
pub struct RegistryEntry {
    pub old_code: CodeId,
    pub handle: MigratorHandle,
}

/// The migrators of one upgrade by the code identifiers they are responsible
/// for.
#[derive(Debug)]
pub struct Registry {
    target_version: NetworkVersion,
    entries: Vec<RegistryEntry>,
}

/// A registry as a plain value.
pub struct RegistryView {
    pub target_version: NetworkVersion,
    pub handles: Map<Seq<u8>, MigratorHandleView>,
}

/// The migrator that a registry gives for a code identifier and a network
/// version: the one registered for the code, if the registry was built for
/// that version.
pub open spec fn spec_lookup(
    registry: RegistryView,
    old_code: Seq<u8>,
    target_network_version: NetworkVersion,
) -> Option<MigratorHandleView> {
    if target_network_version == registry.target_version && registry.handles.contains_key(
        old_code,
    ) {
        Some(registry.handles[old_code])
    } else {
        None
    }
}

impl View for Registry {
    type V = RegistryView;

    closed spec fn view(&self) -> RegistryView {
        RegistryView { target_version: self.target_version, handles: first_wins(self.listed()) }
    }
}

impl Registry {
    /// The registrations in the order in which they were made.
    pub closed spec fn listed(&self) -> Seq<(Seq<u8>, MigratorHandleView)> {
        Seq::new(self.entries@.len(), |i: int| (self.entries@[i].old_code@, self.entries@[i].handle@))
    }

    /// A registry without migrators for the upgrade to a network version.
    pub fn new(target_version: NetworkVersion) -> (registry: Self)
        ensures
            registry@.target_version == target_version,
            registry@.handles == Map::<Seq<u8>, MigratorHandleView>::empty(),
    {
        let registry = Registry { target_version, entries: Vec::new() };
        assert(registry.listed() =~= Seq::empty());
        registry
    }

    /// The number of registrations.
    pub fn len(&self) -> (n: usize)
        ensures
            n == self.listed().len(),
    {
        self.entries.len()
    }

    /// The network version that the registry was built for.
    pub fn target_version(&self) -> (version: NetworkVersion)
        ensures
            version == self@.target_version,
    {
        self.target_version
    }

    /// The place of the registration for a code identifier.
    fn position(&self, old_code: &CodeId) -> (at: Option<usize>)
        ensures
            match at {
                Some(i) => i < self.listed().len() && self@.handles.contains_key(old_code@)
                    && self@.handles[old_code@] == self.listed()[i as int].1,
                None => !self@.handles.contains_key(old_code@),
            },
    {
        let mut i: usize = 0;
        while i < self.entries.len()
            invariant
                i <= self.entries@.len(),
                self.listed().len() == self.entries@.len(),
                forall|j: int| 0 <= j < i ==> self.listed()[j].0 != old_code@,
            decreases self.entries@.len() - i,
        {
            if self.entries[i].old_code == *old_code {
                proof {
                    lemma_first_wins_found(self.listed(), i as int, old_code@);
                }
                return Some(i);
            }
            i = i + 1;
        }
        proof {
            lemma_first_wins_absent(self.listed(), old_code@);
        }
        None
    }

    /// Registers a migrator for a code identifier. A code identifier that has
    /// a migrator keeps it, and the answer is `false`.
    pub fn register(&mut self, old_code: CodeId, handle: MigratorHandle) -> (added: bool)
        ensures
            added == !old(self)@.handles.contains_key(old_code@),
            final(self)@.target_version == old(self)@.target_version,
            final(self)@.handles == if added {
                old(self)@.handles.insert(old_code@, handle@)
            } else {
                old(self)@.handles
            },
    {
        if self.position(&old_code).is_some() {
            return false;
        }
        let ghost before = self.listed();
        let ghost added = (old_code@, handle@);
        self.entries.push(RegistryEntry { old_code, handle });
        assert(self.listed().drop_last() =~= before);
        assert(self.listed().last() == added);
        true
    }

    /// The migrator for a code identifier in the upgrade to a network version.
    pub fn lookup(&self, old_code: &CodeId, target_network_version: NetworkVersion) -> (found:
        Option<&MigratorHandle>)
        ensures
            match found {
                Some(handle) => spec_lookup(self@, old_code@, target_network_version) == Some(
                    handle@,
                ),
                None => spec_lookup(self@, old_code@, target_network_version) is None,
            },
    {
        if target_network_version.0 != self.target_version.0 {
            return None;
        }
        match self.position(old_code) {
            Some(i) => Some(&self.entries[i].handle),
            None => None,
        }
    }
}

/// What an upgrade lays down: the network version it leads to, what becomes
/// of actors of unknown code, the root that the new tree must have, if one is
/// agreed, and the migrators.
#[derive(Debug)]
pub struct UpgradeSpec {
    pub target_version: NetworkVersion,
    pub unknown_policy: UnknownPolicy,
    pub expected_root: Option<ContentHash>,
    pub registry: Registry,
}

/// An upgrade as a plain value.
pub struct UpgradeSpecView {
    pub target_version: NetworkVersion,
    pub unknown_policy: UnknownPolicy,
    pub expected_root: Option<Seq<u8>>,
    pub registry: RegistryView,
}

impl View for UpgradeSpec {
    type V = UpgradeSpecView;

    open spec fn view(&self) -> UpgradeSpecView {
        UpgradeSpecView {
            target_version: self.target_version,
            unknown_policy: self.unknown_policy,
            expected_root: crate::hash::hash_view(self.expected_root),
            registry: self.registry@,
        }
    }
}

} // verus!
