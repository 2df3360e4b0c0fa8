//! The migration cache: which new record came of which old record under which
//! migration, so that equal records are converted once.

use crate::error::MigrationError;
use crate::hash::{spec_block_cid, ContentHash};
use crate::index::{digest, lemma_index_grows, spec_digest, Index};
use crate::store::{
    distinct_keys, first_wins, lemma_first_wins_absent, lemma_first_wins_found,
    lemma_first_wins_holds, put_blocks, MemoryStore,
};
use vstd::prelude::*;

verus! {

/// One remembered conversion.
#[derive(Debug)]
pub struct CacheEntry {
    pub old_head: ContentHash,
    pub migration_id: u64,
    pub new_head: ContentHash,
}

/// The cache after a conversion was offered to it: a cache that is switched
/// off takes nothing, and a key that is taken keeps its value.
pub open spec fn remembered(
    cache: Map<(Seq<u8>, u64), Seq<u8>>,
    enabled: bool,
    key: (Seq<u8>, u64),
    new_head: Seq<u8>,
) -> Map<(Seq<u8>, u64), Seq<u8>> {
    if !enabled || cache.contains_key(key) {
        cache
    } else {
        cache.insert(key, new_head)
    }
}

/// The old heads of a list of remembered conversions.
pub open spec fn heads_of(list: Seq<((Seq<u8>, u64), Seq<u8>)>) -> Seq<Seq<u8>> {
    Seq::new(list.len(), |i: int| list[i].0.0)
}

/// The remembered conversions with the index of their places.
#[derive(Debug)]
struct CacheParts {
    entries: Vec<CacheEntry>,
    index: Index,
}

impl CacheParts {
    spec fn listed(&self) -> Seq<((Seq<u8>, u64), Seq<u8>)> {
        Seq::new(
            self.entries@.len(),
            |i: int|
                ((self.entries@[i].old_head@, self.entries@[i].migration_id), self.entries@[i].new_head@),
        )
    }

    /// No key stands twice, and the index knows the place of every entry.
    spec fn wf(&self) -> bool {
        &&& distinct_keys(self.listed())
        &&& self.index.covers(heads_of(self.listed()))
        &&& self.index.within(self.listed().len())
    }

    fn new() -> (parts: Self)
        ensures
            parts.wf(),
            parts.listed() == Seq::<((Seq<u8>, u64), Seq<u8>)>::empty(),
    {
        let parts = CacheParts { entries: Vec::new(), index: Index::new() };
        assert(parts.listed() =~= Seq::empty());
        parts
    }

    /// The place of the entry for an old head under a migration.
    fn position(&self, old_head: &ContentHash, migration_id: u64) -> (at: Option<usize>)
        requires
            self.wf(),
        ensures
            match at {
                Some(i) => i < self.listed().len() && self.listed()[i as int].0 == (
                    old_head@,
                    migration_id,
                ) && first_wins(self.listed()).contains_key((old_head@, migration_id))
                    && first_wins(self.listed())[(old_head@, migration_id)]
                    == self.listed()[i as int].1,
                None => !first_wins(self.listed()).contains_key((old_head@, migration_id)),
            },
    {
        let ghost key = (old_head@, migration_id);
        let ghost heads = heads_of(self.listed());
        let n = self.entries.len();
        assert(self.listed().len() == n);
        match self.index.bucket(digest(old_head.as_bytes())) {
            Some(places) => {
                let mut j: usize = 0;
                while j < places.len()
                    invariant
                        j <= places@.len(),
                        self.wf(),
                        self.listed().len() == n,
                        key == (old_head@, migration_id),
                        self.index.buckets().contains_key(spec_digest(old_head@)),
                        places@ == self.index.buckets()[spec_digest(old_head@)],
                        forall|k: int| 0 <= k < j ==> self.listed()[places@[k] as int].0 != key,
                    decreases places@.len() - j,
                {
                    let i = places[j];
                    assert(self.index.buckets()[spec_digest(old_head@)][j as int]
                        < self.listed().len());
                    if self.entries[i].migration_id == migration_id && self.entries[i].old_head
                        == *old_head {
                        proof {
                            lemma_first_wins_found(self.listed(), i as int, key);
                        }
                        return Some(i);
                    }
                    j = j + 1;
                }
                proof {
                    assert forall|i: int| 0 <= i < self.listed().len() implies self.listed()[i].0
                        != key by {
                        if self.listed()[i].0 == key {
                            assert(heads[i] == old_head@);
                            assert(places@.contains(i as usize));
                            let k = choose|k: int|
                                0 <= k < places@.len() && places@[k] == i as usize;
                            assert(places@[k] as int == i);
                            assert(self.listed()[places@[k] as int].0 != key);
                        }
                    }
                    lemma_first_wins_absent(self.listed(), key);
                }
                None
            },
            None => {
                proof {
                    assert forall|i: int| 0 <= i < self.listed().len() implies self.listed()[i].0
                        != key by {
                        if self.listed()[i].0 == key {
                            assert(heads[i] == old_head@);
                        }
                    }
                    lemma_first_wins_absent(self.listed(), key);
                }
                None
            },
        }
    }

    /// Remembers a conversion under a key that has none.
    fn push(&mut self, entry: CacheEntry)
        requires
            old(self).wf(),
            !first_wins(old(self).listed()).contains_key((entry.old_head@, entry.migration_id)),
        ensures
            final(self).wf(),
            final(self).listed() == old(self).listed().push(
                ((entry.old_head@, entry.migration_id), entry.new_head@),
            ),
    {
        let ghost before = self.listed();
        let ghost index_before = self.index;
        let ghost added = ((entry.old_head@, entry.migration_id), entry.new_head@);
        let place = self.entries.len();
        self.index.add(digest(entry.old_head.as_bytes()), place);
        self.entries.push(entry);
        let total = self.entries.len();
        proof {
            assert(total == place + 1);
            assert(heads_of(before).len() == before.len() == place);
            assert(self.listed() =~= before.push(added));
            assert(heads_of(self.listed()) =~= heads_of(before).push(added.0.0));
            lemma_index_grows(index_before, self.index, heads_of(before), added.0.0);
            assert forall|i: int, j: int| 0 <= i < j < self.listed().len() implies self.listed()[i].0
                != self.listed()[j].0 by {
                if j == before.len() {
                    lemma_first_wins_holds(before, i);
                    assert(self.listed()[i] == before[i]);
                } else {
                    assert(self.listed()[i] == before[i] && self.listed()[j] == before[j]);
                }
            }
        }
    }
}

/// The remembered conversions of one run. Entries are only ever added.
#[derive(Debug)]
pub struct MigrationCache {
    parts: CacheParts,
    enabled: bool,
}

impl View for MigrationCache {
    type V = Map<(Seq<u8>, u64), Seq<u8>>;

    closed spec fn view(&self) -> Map<(Seq<u8>, u64), Seq<u8>> {
        first_wins(self.listed())
    }
}

impl MigrationCache {
    /// The remembered conversions in the order in which they came.
    pub closed spec fn listed(&self) -> Seq<((Seq<u8>, u64), Seq<u8>)> {
        self.parts.listed()
    }

    /// Whether the cache remembers anything. One that is switched off stays
    /// empty, and every conversion is computed anew.
    pub closed spec fn enabled(&self) -> bool {
        self.enabled
    }

    /// The cache's invariant: no key stands twice, the index knows the place
    /// of every entry, and a cache that is switched off is empty.
    #[verifier::type_invariant]
    closed spec fn wf(&self) -> bool {
        &&& self.parts.wf()
        &&& !self.enabled ==> self.parts.entries@.len() == 0
    }

    /// An empty cache.
    pub fn new() -> (cache: Self)
        ensures
            cache.enabled(),
            cache@ == Map::<(Seq<u8>, u64), Seq<u8>>::empty(),
    {
        MigrationCache { parts: CacheParts::new(), enabled: true }
    }

    /// A cache that is switched off.
    pub fn disabled() -> (cache: Self)
        ensures
            !cache.enabled(),
            cache@ == Map::<(Seq<u8>, u64), Seq<u8>>::empty(),
    {
        MigrationCache { parts: CacheParts::new(), enabled: false }
    }

    /// The number of conversions remembered.
    pub fn len(&self) -> (n: usize)
        ensures
            n == self.listed().len(),
    {
        self.parts.entries.len()
    }

    /// The new head remembered for an old head under a migration.
    pub fn get(&self, old_head: &ContentHash, migration_id: u64) -> (found: Option<ContentHash>)
        ensures
            match found {
                Some(new_head) => self@.contains_key((old_head@, migration_id)) && new_head@
                    == self@[(old_head@, migration_id)],
                None => !self@.contains_key((old_head@, migration_id)),
            },
    {
        proof {
            use_type_invariant(self);
        }
        match self.parts.position(old_head, migration_id) {
            Some(i) => Some(self.parts.entries[i].new_head.clone()),
            None => None,
        }
    }

    /// Remembers a conversion, unless the cache is switched off or remembers
    /// one for the same old head and migration already.
    pub fn insert(&mut self, old_head: &ContentHash, migration_id: u64, new_head: &ContentHash)
        ensures
            final(self).enabled() == old(self).enabled(),
            final(self)@ == remembered(
                old(self)@,
                old(self).enabled(),
                (old_head@, migration_id),
                new_head@,
            ),
    {
        proof {
            use_type_invariant(&*self);
        }
        if !self.enabled {
            assert(self.listed() =~= Seq::empty());
            return ;
        }
        if self.parts.position(old_head, migration_id).is_none() {
            let ghost before = self.listed();
            let mut parts = CacheParts::new();
            core::mem::swap(&mut self.parts, &mut parts);
            parts.push(
                CacheEntry { old_head: old_head.clone(), migration_id, new_head: new_head.clone() },
            );
            self.parts = parts;
            assert(self.listed().drop_last() =~= before);
            assert(self.listed().last() == ((old_head@, migration_id), new_head@));
        }
    }

    /// The new head for an old head under a migration. Where the cache
    /// remembers one, that is the answer, and `compute` is not called. Where
    /// it does not, `compute` gives the new record's bytes, which are written
    /// to the store under the codec and remembered by their hash.
    pub fn get_or_compute<F: FnOnce() -> Result<Vec<u8>, MigrationError>>(
        &mut self,
        store: &mut MemoryStore,
        codec: u64,
        old_head: &ContentHash,
        migration_id: u64,
        compute: F,
    ) -> (outcome: Result<ContentHash, MigrationError>)
        requires
            compute.requires(()),
        ensures
            final(self).enabled() == old(self).enabled(),
            old(store).blocks().submap_of(final(store).blocks()),
            old(self)@.contains_key((old_head@, migration_id)) ==> {
                &&& outcome matches Ok(new_head)
                &&& new_head@ == old(self)@[(old_head@, migration_id)]
                &&& final(self)@ == old(self)@
                &&& final(store).blocks() == old(store).blocks()
            },
            !old(self)@.contains_key((old_head@, migration_id)) ==> match outcome {
                Ok(new_head) => exists|bytes: Vec<u8>|
                    {
                        &&& #[trigger] compute.ensures((), Ok(bytes))
                        &&& new_head@ == spec_block_cid(codec, bytes@)
                        &&& final(store).blocks() == put_blocks(
                            old(store).blocks(),
                            codec,
                            bytes@,
                        )
                        &&& final(self)@ == remembered(
                            old(self)@,
                            old(self).enabled(),
                            (old_head@, migration_id),
                            new_head@,
                        )
                    },
                Err(e) => {
                    &&& final(self)@ == old(self)@
                    &&& final(store).blocks() == old(store).blocks()
                    &&& compute.ensures((), Err(e))
                },
            },
    {
        match self.get(old_head, migration_id) {
            Some(new_head) => Ok(new_head),
            None => {
                match compute() {
                    Ok(bytes) => {
                        let new_head = store.put(codec, bytes.as_slice());
                        self.insert(old_head, migration_id, &new_head);
                        Ok(new_head)
                    },
                    Err(e) => Err(e),
                }
            },
        }
    }
}

} // verus!
