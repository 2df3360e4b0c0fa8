//! What a block store offers to the exchange of blocks with other nodes.

use crate::hash::{spec_block_cid, ContentHash};
use std::sync::Arc;
use vstd::prelude::*;

verus! {

/// The block store could not do what was asked of it.
#[derive(Clone, Copy, Debug, PartialEq, Eq, Structural)]
pub struct StoreError;

/// A block of data with its content identifier.
#[derive(Debug)]
pub struct Block {
    cid: ContentHash,
    data: Vec<u8>,
}

impl Block {
    /// The identifier of the block, in its binary form.
    pub closed spec fn spec_cid(&self) -> Seq<u8> {
        self.cid@
    }

    /// The data of the block.
    pub closed spec fn spec_data(&self) -> Seq<u8> {
        self.data@
    }

    /// The block of some data under a codec, with the identifier that the
    /// data has.
    pub fn new(codec: u64, data: Vec<u8>) -> (block: Self)
        ensures
            block.spec_data() == data@,
            block.spec_cid() == spec_block_cid(codec, data@),
    {
        let cid = ContentHash::of(codec, data.as_slice());
        Block { cid, data }
    }

    /// The block of some data under the identifier that it is known by.
    pub fn keyed(cid: ContentHash, data: Vec<u8>) -> (block: Self)
        ensures
            block.spec_data() == data@,
            block.spec_cid() == cid@,
    {
        Block { cid, data }
    }

    pub fn cid(&self) -> (cid: &ContentHash)
        ensures
            cid@ == self.spec_cid(),
    {
        &self.cid
    }

    pub fn data(&self) -> (data: &[u8])
        ensures
            data@ == self.spec_data(),
    {
        self.data.as_slice()
    }
}

/// Trait implemented by a block store for reading.
pub trait BitswapStoreRead {
    /// A have query needs to know if the block store contains the block.
    fn contains(&self, cid: &ContentHash) -> (held: Result<bool, StoreError>);

    /// A block query needs to retrieve the block from the store.
    fn get(&self, cid: &ContentHash) -> (found: Result<Option<Vec<u8>>, StoreError>);
}

/// Trait implemented by a block store for reading and writing.
pub trait BitswapStoreReadWrite: BitswapStoreRead + Send + Sync + 'static {
    /// A block response needs to insert the block into the store.
    fn insert(&self, block: &Block) -> (done: Result<(), StoreError>);
}

impl<T: BitswapStoreRead> BitswapStoreRead for Arc<T> {
    /// A shared store answers as the store that is shared.
    fn contains(&self, cid: &ContentHash) -> (held: Result<bool, StoreError>)
        ensures
            call_ensures(T::contains, (&**self, cid), held),
    {
        (**self).contains(cid)
    }

    /// A shared store answers as the store that is shared.
    fn get(&self, cid: &ContentHash) -> (found: Result<Option<Vec<u8>>, StoreError>)
        ensures
            call_ensures(T::get, (&**self, cid), found),
    {
        (**self).get(cid)
    }
}

impl<T: BitswapStoreReadWrite> BitswapStoreReadWrite for Arc<T> {
    /// A shared store takes a block as the store that is shared.
    fn insert(&self, block: &Block) -> (done: Result<(), StoreError>)
        ensures
            call_ensures(T::insert, (&**self, block), done),
    {
        (**self).insert(block)
    }
}

} // verus!
