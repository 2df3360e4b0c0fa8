//! An index of the places of a list's entries by a short number made of their
//! keys, so that an entry is found without going through the whole list.

use std::collections::HashMap;
use vstd::bytes::{spec_u64_from_le_bytes, u64_from_le_bytes};
use vstd::prelude::*;
use vstd::slice::slice_subrange;

verus! {

broadcast use vstd::std_specs::hash::group_hash_axioms;

/// The short number of a key: its last eight bytes as an integer, or its
/// length where it is shorter.
pub open spec fn spec_digest(key: Seq<u8>) -> u64 {
    if key.len() >= 8 {
        spec_u64_from_le_bytes(key.subrange(key.len() - 8, key.len() as int))
    } else {
        key.len() as u64
    }
}

/// The short number of a key.
pub fn digest(key: &[u8]) -> (d: u64)
    ensures
        d == spec_digest(key@),
{
    let n = key.len();
    if n >= 8 {
        u64_from_le_bytes(slice_subrange(key, n - 8, n))
    } else {
        n as u64
    }
}

/// The short numbers of a list of keys.
pub open spec fn digests(keys: Seq<Seq<u8>>) -> Seq<u64> {
    Seq::new(keys.len(), |i: int| spec_digest(keys[i]))
}

/// The places of a list's entries, by the short numbers of their keys.
#[derive(Debug)]
pub struct Index {
    buckets: HashMap<u64, Vec<usize>>,
}

impl Index {
    /// The places under each short number.
    pub closed spec fn buckets(&self) -> Map<u64, Seq<usize>> {
        Map::new(|d: u64| self.buckets@.contains_key(d), |d: u64| self.buckets@[d]@)
    }

    /// Whether every place of a list of keys stands under the short number
    /// of its key.
    pub open spec fn covers(&self, keys: Seq<Seq<u8>>) -> bool {
        forall|i: int|
            #![trigger keys[i]]
            0 <= i < keys.len() ==> self.buckets().contains_key(spec_digest(keys[i]))
                && self.buckets()[spec_digest(keys[i])].contains(i as usize)
    }

    /// Whether every place in the index is a place of a list of the given
    /// length.
    pub open spec fn within(&self, n: nat) -> bool {
        forall|d: u64, j: int|
            self.buckets().contains_key(d) && 0 <= j < self.buckets()[d].len()
                ==> #[trigger] self.buckets()[d][j] < n
    }

    /// An index without places.
    pub fn new() -> (index: Self)
        ensures
            index.buckets() == Map::<u64, Seq<usize>>::empty(),
    {
        let index = Index { buckets: HashMap::new() };
        assert(index.buckets() =~= Map::<u64, Seq<usize>>::empty());
        index
    }

    /// The places under a short number.
    pub fn bucket(&self, d: u64) -> (found: Option<&Vec<usize>>)
        ensures
            match found {
                Some(places) => self.buckets().contains_key(d) && places@ == self.buckets()[d],
                None => !self.buckets().contains_key(d),
            },
    {
        self.buckets.get(&d)
    }

    /// Puts a place under a short number, behind the places that stand
    /// there.
    pub fn add(&mut self, d: u64, place: usize)
        ensures
            final(self).buckets() == old(self).buckets().insert(
                d,
                if old(self).buckets().contains_key(d) {
                    old(self).buckets()[d].push(place)
                } else {
                    seq![place]
                },
            ),
    {
        let ghost before = self.buckets();
        let mut places = match self.buckets.remove(&d) {
            Some(places) => places,
            None => Vec::new(),
        };
        places.push(place);
        self.buckets.insert(d, places);
        assert(self.buckets() =~= before.insert(
            d,
            if before.contains_key(d) {
                before[d].push(place)
            } else {
                seq![place]
            },
        ));
    }
}

/// An index that covers a list and stays within it does so when the next
/// key's place is put under the key's short number.
pub proof fn lemma_index_grows(before: Index, after: Index, keys: Seq<Seq<u8>>, key: Seq<u8>)
    requires
        before.covers(keys),
        before.within(keys.len()),
        keys.len() < usize::MAX,
        after.buckets() == before.buckets().insert(
            spec_digest(key),
            if before.buckets().contains_key(spec_digest(key)) {
                before.buckets()[spec_digest(key)].push(keys.len() as usize)
            } else {
                seq![keys.len() as usize]
            },
        ),
    ensures
        after.covers(keys.push(key)),
        after.within(keys.len() + 1),
{
    let d = spec_digest(key);
    let place = keys.len() as usize;
    let longer = keys.push(key);
    assert forall|i: int| #![trigger longer[i]] 0 <= i < longer.len() implies after.buckets().contains_key(
        spec_digest(longer[i]),
    ) && after.buckets()[spec_digest(longer[i])].contains(i as usize) by {
        if i < keys.len() {
            assert(longer[i] == keys[i]);
            let places = before.buckets()[spec_digest(keys[i])];
            let at = choose|at: int| 0 <= at < places.len() && places[at] == i as usize;
            if spec_digest(keys[i]) == d {
                assert(places.push(place)[at] == i as usize);
            }
        } else {
            let places = after.buckets()[d];
            assert(places[places.len() - 1] == place);
        }
    }
    assert forall|e: u64, j: int|
        after.buckets().contains_key(e) && 0 <= j < after.buckets()[e].len() implies #[trigger] after.buckets()[e][j]
        < keys.len() + 1 by {
        if e == d {
            if before.buckets().contains_key(d) && j < before.buckets()[d].len() {
                assert(before.buckets()[d][j] < keys.len());
            }
        } else {
            assert(before.buckets()[e][j] < keys.len());
        }
    }
}

} // verus!
