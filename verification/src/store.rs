//! The content store: blocks of bytes kept under their content hashes.

use crate::bitswap::{BitswapStoreRead, StoreError};
use crate::hash::{spec_block_cid, ContentHash};
use crate::index::{digest, lemma_index_grows, spec_digest, Index};
use vstd::prelude::*;
use vstd::slice::slice_to_vec;

verus! {

/// The blocks of a store after a block of data was put under a codec: the
/// block stands under its content hash, unless that slot was taken, in which
/// case nothing changes. A block, once written, stays as it is.
pub open spec fn put_blocks(
    blocks: Map<Seq<u8>, Seq<u8>>,
    codec: u64,
    data: Seq<u8>,
) -> Map<Seq<u8>, Seq<u8>> {
    let hash = spec_block_cid(codec, data);
    if blocks.contains_key(hash) {
        blocks
    } else {
        blocks.insert(hash, data)
    }
}

/// A block with the hash it is kept under.
#[derive(Debug)]
pub struct StoredBlock {
    pub hash: ContentHash,
    pub data: Vec<u8>,
}

/// The map of a list of values, each with its key: the first value under a
/// key is the one that counts.
pub open spec fn first_wins<K, V>(list: Seq<(K, V)>) -> Map<K, V>
    decreases list.len(),
{
    if list.len() == 0 {
        Map::empty()
    } else {
        let before = first_wins(list.drop_last());
        if before.contains_key(list.last().0) {
            before
        } else {
            before.insert(list.last().0, list.last().1)
        }
    }
}

/// A key that stands nowhere in the list is not in its map.
pub proof fn lemma_first_wins_absent<K, V>(list: Seq<(K, V)>, key: K)
    requires
        forall|j: int| 0 <= j < list.len() ==> list[j].0 != key,
    ensures
        !first_wins(list).contains_key(key),
    decreases list.len(),
{
    if list.len() > 0 {
        lemma_first_wins_absent(list.drop_last(), key);
    }
}

/// The map gives a key the first value that stands under it.
pub proof fn lemma_first_wins_found<K, V>(list: Seq<(K, V)>, i: int, key: K)
    requires
        0 <= i < list.len(),
        list[i].0 == key,
        forall|j: int| 0 <= j < i ==> list[j].0 != key,
    ensures
        first_wins(list).contains_key(key),
        first_wins(list)[key] == list[i].1,
    decreases list.len(),
{
    if i == list.len() - 1 {
        lemma_first_wins_absent(list.drop_last(), key);
    } else {
        lemma_first_wins_found(list.drop_last(), i, key);
    }
}

/// Every key that stands in the list is in its map.
pub proof fn lemma_first_wins_holds<K, V>(list: Seq<(K, V)>, i: int)
    requires
        0 <= i < list.len(),
    ensures
        first_wins(list).contains_key(list[i].0),
    decreases list.len(),
{
    if i < list.len() - 1 {
        lemma_first_wins_holds(list.drop_last(), i);
    }
}

/// Every key of the map stands in the list, with the value that the map
/// gives it.
pub proof fn lemma_first_wins_listed<K, V>(list: Seq<(K, V)>, key: K)
    requires
        first_wins(list).contains_key(key),
    ensures
        exists|i: int| 0 <= i < list.len() && #[trigger] list[i] == (key, first_wins(list)[key]),
    decreases list.len(),
{
    if list.len() > 0 {
        let front = list.drop_last();
        if first_wins(front).contains_key(key) {
            lemma_first_wins_listed(front, key);
            let i = choose|i: int|
                0 <= i < front.len() && #[trigger] front[i] == (key, first_wins(front)[key]);
            assert(list[i] == (key, first_wins(list)[key]));
        } else {
            assert(list[list.len() - 1] == (key, first_wins(list)[key]));
        }
    }
}

/// Whether no key stands twice in a list.
pub open spec fn distinct_keys<K, V>(list: Seq<(K, V)>) -> bool {
    forall|i: int, j: int| 0 <= i < j < list.len() ==> list[i].0 != list[j].0
}

/// The keys of a list of blocks.
pub open spec fn keys_of(list: Seq<(Seq<u8>, Seq<u8>)>) -> Seq<Seq<u8>> {
    Seq::new(list.len(), |i: int| list[i].0)
}

/// The blocks of a store with the index of their places.
#[derive(Debug)]
struct StoreParts {
    list: Vec<StoredBlock>,
    index: Index,
}

impl StoreParts {
    spec fn listed(&self) -> Seq<(Seq<u8>, Seq<u8>)> {
        Seq::new(self.list@.len(), |i: int| (self.list@[i].hash@, self.list@[i].data@))
    }

    /// No hash stands twice, and the index knows the place of every block.
    spec fn wf(&self) -> bool {
        &&& distinct_keys(self.listed())
        &&& self.index.covers(keys_of(self.listed()))
        &&& self.index.within(self.listed().len())
    }

    fn new() -> (parts: Self)
        ensures
            parts.wf(),
            parts.listed() == Seq::<(Seq<u8>, Seq<u8>)>::empty(),
    {
        let parts = StoreParts { list: Vec::new(), index: Index::new() };
        assert(parts.listed() =~= Seq::empty());
        parts
    }

    /// The place of the block under a hash, if there is one.
    fn position(&self, hash: &ContentHash) -> (at: Option<usize>)
        requires
            self.wf(),
        ensures
            match at {
                Some(i) => i < self.listed().len() && self.listed()[i as int].0 == hash@
                    && first_wins(self.listed()).contains_key(hash@) && first_wins(
                    self.listed(),
                )[hash@] == self.listed()[i as int].1,
                None => !first_wins(self.listed()).contains_key(hash@),
            },
    {
        let ghost keys = keys_of(self.listed());
        let n = self.list.len();
        assert(self.listed().len() == n);
        match self.index.bucket(digest(hash.as_bytes())) {
            Some(places) => {
                let mut j: usize = 0;
                while j < places.len()
                    invariant
                        j <= places@.len(),
                        self.wf(),
                        self.listed().len() == n,
                        self.index.buckets().contains_key(spec_digest(hash@)),
                        places@ == self.index.buckets()[spec_digest(hash@)],
                        forall|k: int|
                            0 <= k < j ==> self.listed()[places@[k] as int].0 != hash@,
                    decreases places@.len() - j,
                {
                    let i = places[j];
                    assert(self.index.buckets()[spec_digest(hash@)][j as int] < self.listed().len());
                    if self.list[i].hash == *hash {
                        proof {
                            lemma_first_wins_found(self.listed(), i as int, hash@);
                        }
                        return Some(i);
                    }
                    j = j + 1;
                }
                proof {
                    assert forall|i: int| 0 <= i < self.listed().len() implies self.listed()[i].0
                        != hash@ by {
                        if self.listed()[i].0 == hash@ {
                            assert(keys[i] == hash@);
                            assert(places@.contains(i as usize));
                            let k = choose|k: int|
                                0 <= k < places@.len() && places@[k] == i as usize;
                            assert(places@[k] as int == i);
                            assert(self.listed()[places@[k] as int].0 != hash@);
                        }
                    }
                    lemma_first_wins_absent(self.listed(), hash@);
                }
                None
            },
            None => {
                proof {
                    assert forall|i: int| 0 <= i < self.listed().len() implies self.listed()[i].0
                        != hash@ by {
                        if self.listed()[i].0 == hash@ {
                            assert(keys[i] == hash@);
                        }
                    }
                    lemma_first_wins_absent(self.listed(), hash@);
                }
                None
            },
        }
    }

    /// Puts a block under a hash that no block stands under.
    fn push(&mut self, hash: ContentHash, data: Vec<u8>)
        requires
            old(self).wf(),
            !first_wins(old(self).listed()).contains_key(hash@),
        ensures
            final(self).wf(),
            final(self).listed() == old(self).listed().push((hash@, data@)),
    {
        let ghost before = self.listed();
        let ghost index_before = self.index;
        let ghost key = hash@;
        let place = self.list.len();
        self.index.add(digest(hash.as_bytes()), place);
        self.list.push(StoredBlock { hash, data });
        let total = self.list.len();
        proof {
            assert(total == place + 1);
            assert(keys_of(before).len() == before.len() == place);
            assert(self.listed() =~= before.push((key, data@)));
            assert(keys_of(self.listed()) =~= keys_of(before).push(key));
            lemma_index_grows(index_before, self.index, keys_of(before), key);
            assert forall|i: int, j: int| 0 <= i < j < self.listed().len() implies self.listed()[i].0
                != self.listed()[j].0 by {
                if j == before.len() {
                    lemma_first_wins_holds(before, i);
                    assert(self.listed()[i] == before[i]);
                } else {
                    assert(self.listed()[i] == before[i] && self.listed()[j] == before[j]);
                }
            }
        }
    }
}

/// A content store in memory: the blocks by their hashes. It serves as the
/// snapshot of the old records that a run reads, and as the place where a run
/// writes its new records.
#[derive(Debug)]
pub struct MemoryStore {
    parts: StoreParts,
}

impl MemoryStore {
    /// The store's invariant: no hash stands twice, and the index knows the
    /// place of every block.
    #[verifier::type_invariant]
    closed spec fn wf(&self) -> bool {
        self.parts.wf()
    }

    /// The blocks in the order in which they came, as plain values.
    pub closed spec fn listed(&self) -> Seq<(Seq<u8>, Seq<u8>)> {
        self.parts.listed()
    }

    /// The blocks that the store holds, by the binary form of their hashes.
    pub closed spec fn blocks(&self) -> Map<Seq<u8>, Seq<u8>> {
        first_wins(self.listed())
    }

    /// A store without blocks.
    pub fn new() -> (store: Self)
        ensures
            store.blocks() == Map::<Seq<u8>, Seq<u8>>::empty(),
            store.listed() == Seq::<(Seq<u8>, Seq<u8>)>::empty(),
    {
        MemoryStore { parts: StoreParts::new() }
    }

    /// The number of blocks held.
    pub fn len(&self) -> (n: usize)
        ensures
            n == self.listed().len(),
    {
        self.parts.list.len()
    }

    /// The block at a place, in the order in which the blocks came.
    pub fn block(&self, i: usize) -> (block: &StoredBlock)
        requires
            i < self.listed().len(),
        ensures
            (block.hash@, block.data@) == self.listed()[i as int],
            self.blocks().contains_key(block.hash@),
            self.blocks()[block.hash@] == block.data@,
    {
        proof {
            use_type_invariant(self);
            lemma_first_wins_found(self.listed(), i as int, self.listed()[i as int].0);
        }
        &self.parts.list[i]
    }

    /// Every block that the store holds stands in its list.
    pub proof fn lemma_listed(&self, hash: Seq<u8>)
        requires
            self.blocks().contains_key(hash),
        ensures
            exists|i: int|
                0 <= i < self.listed().len() && #[trigger] self.listed()[i] == (
                    hash,
                    self.blocks()[hash],
                ),
    {
        lemma_first_wins_listed(self.listed(), hash);
    }

    /// Whether the store holds a block under a hash.
    pub fn has(&self, hash: &ContentHash) -> (held: bool)
        ensures
            held == self.blocks().contains_key(hash@),
    {
        proof {
            use_type_invariant(self);
        }
        self.parts.position(hash).is_some()
    }

    /// The block under a hash, if the store holds one.
    pub fn fetch(&self, hash: &ContentHash) -> (found: Option<Vec<u8>>)
        ensures
            match found {
                Some(data) => self.blocks().contains_key(hash@) && data@ == self.blocks()[hash@],
                None => !self.blocks().contains_key(hash@),
            },
    {
        proof {
            use_type_invariant(self);
        }
        match self.parts.position(hash) {
            Some(i) => Some(slice_to_vec(self.parts.list[i].data.as_slice())),
            None => None,
        }
    }

    /// Stores a block of data under a hash that is known for it, unless the
    /// slot is taken. The answer says whether the block went in.
    pub fn insert(&mut self, hash: ContentHash, data: Vec<u8>) -> (added: bool)
        ensures
            added == !old(self).blocks().contains_key(hash@),
            final(self).blocks() == if added {
                old(self).blocks().insert(hash@, data@)
            } else {
                old(self).blocks()
            },
            old(self).blocks().submap_of(final(self).blocks()),
    {
        proof {
            use_type_invariant(&*self);
        }
        if self.parts.position(&hash).is_some() {
            return false;
        }
        let ghost before = self.listed();
        let ghost added = (hash@, data@);
        let mut parts = StoreParts::new();
        core::mem::swap(&mut self.parts, &mut parts);
        parts.push(hash, data);
        self.parts = parts;
        assert(self.listed().drop_last() =~= before);
        assert(self.listed().last() == added);
        true
    }

    /// Stores a block of data under a codec and returns its hash.
    pub fn put(&mut self, codec: u64, data: &[u8]) -> (hash: ContentHash)
        ensures
            hash@ == spec_block_cid(codec, data@),
            final(self).blocks() == put_blocks(old(self).blocks(), codec, data@),
            old(self).blocks().submap_of(final(self).blocks()),
            final(self).blocks().contains_key(hash@),
    {
        let hash = ContentHash::of(codec, data);
        self.insert(hash.clone(), slice_to_vec(data));
        hash
    }
}

impl BitswapStoreRead for MemoryStore {
    fn contains(&self, cid: &ContentHash) -> (held: Result<bool, StoreError>)
        ensures
            held == Ok::<bool, StoreError>(self.blocks().contains_key(cid@)),
    {
        Ok(self.has(cid))
    }

    fn get(&self, cid: &ContentHash) -> (found: Result<Option<Vec<u8>>, StoreError>)
        ensures
            match found {
                Ok(Some(data)) => self.blocks().contains_key(cid@) && data@ == self.blocks()[cid@],
                Ok(None) => !self.blocks().contains_key(cid@),
                Err(_) => false,
            },
    {
        Ok(self.fetch(cid))
    }
}

} // verus!
