//! Content hashes: the identifiers under which blocks of bytes are stored.

use vstd::prelude::*;
use vstd::slice::slice_to_vec;
use vstd::std_specs::cmp::PartialEqSpecImpl;

verus! {

/// The codec of a block of plain CBOR.
pub const CBOR: u64 = 0x51;

/// The codec of a block of CBOR whose links can be followed.
pub const DAG_CBOR: u64 = 0x71;

/// The codec of a block of raw bytes.
pub const IPLD_RAW: u64 = 0x55;

/// The binary form of the version 1 content identifier of a block: its codec
/// and the Blake2b-256 multihash of its data.
pub uninterp spec fn spec_block_cid(codec: u64, data: Seq<u8>) -> Seq<u8>;

/// The codec of the content identifier that a byte string starts with, where
/// it starts with one.
pub uninterp spec fn spec_cid_codec(cid: Seq<u8>) -> Option<u64>;

/// Calls `fvm_ipld_blockstore::Block::cid` with the Blake2b-256 hash function
/// and writes the identifier out with `cid::Cid::to_bytes`. The identifier
/// depends on the codec and the data alone; nothing more is claimed of it.
#[verifier::external_body]
fn block_cid(codec: u64, data: &[u8]) -> (cid: Vec<u8>)
    ensures
        cid@ == spec_block_cid(codec, data@),
{
    fvm_ipld_blockstore::Block::new(codec, data).cid(
        multihash_codetable::Code::Blake2b256,
    ).to_bytes()
}

/// Reads a content identifier from the front of the bytes with
/// `cid::Cid::try_from` and gives its codec (`cid::Cid::codec`), or nothing
/// where the bytes do not start with an identifier. The answer depends on the
/// bytes alone; nothing more is claimed of it.
#[verifier::external_body]
fn cid_codec(cid: &[u8]) -> (codec: Option<u64>)
    ensures
        codec == spec_cid_codec(cid@),
{
    match cid::Cid::try_from(cid) {
        Ok(parsed) => Some(parsed.codec()),
        Err(_) => None,
    }
}

/// Whether two byte strings hold the same bytes.
pub fn bytes_eq(a: &[u8], b: &[u8]) -> (same: bool)
    ensures
        same == (a@ == b@),
{
    if a.len() != b.len() {
        return false;
    }
    let mut i: usize = 0;
    while i < a.len()
        invariant
            i <= a@.len(),
            a@.len() == b@.len(),
            forall|k: int| 0 <= k < i ==> a@[k] == b@[k],
        decreases a@.len() - i,
    {
        if a[i] != b[i] {
            return false;
        }
        i = i + 1;
    }
    assert(a@ =~= b@);
    true
}

/// The identifier of a block of bytes, in its binary form. Equal blocks under
/// one codec have equal identifiers.
#[derive(Debug)]
pub struct ContentHash {
    bytes: Vec<u8>,
}

/// An actor's code identifier: the content hash of the code that runs it.
pub type CodeId = ContentHash;

impl View for ContentHash {
    type V = Seq<u8>;

    closed spec fn view(&self) -> Seq<u8> {
        self.bytes@
    }
}

impl ContentHash {
    /// The identifier with the given binary form.
    pub fn from_bytes(bytes: Vec<u8>) -> (hash: Self)
        ensures
            hash@ == bytes@,
    {
        ContentHash { bytes }
    }

    /// The binary form.
    pub fn as_bytes(&self) -> (bytes: &[u8])
        ensures
            bytes@ == self@,
    {
        self.bytes.as_slice()
    }

    /// The identifier of a block of data under a codec.
    pub fn of(codec: u64, data: &[u8]) -> (hash: Self)
        ensures
            hash@ == spec_block_cid(codec, data@),
    {
        ContentHash { bytes: block_cid(codec, data) }
    }

    /// The codec that the identifier names, where it is a well-formed
    /// identifier.
    pub fn codec(&self) -> (codec: Option<u64>)
        ensures
            codec == spec_cid_codec(self@),
    {
        cid_codec(self.bytes.as_slice())
    }

    /// Whether the identifier names a block of CBOR, plain or with links.
    pub fn is_cbor(&self) -> (yes: bool)
        ensures
            yes == names_cbor(spec_cid_codec(self@)),
    {
        codec_is_cbor(self.codec())
    }
}

/// Whether a codec, if there is one, is one of the two CBOR codecs.
pub open spec fn names_cbor(codec: Option<u64>) -> bool {
    codec == Some(CBOR) || codec == Some(DAG_CBOR)
}

/// Whether a codec, if there is one, is one of the two CBOR codecs.
pub fn codec_is_cbor(codec: Option<u64>) -> (yes: bool)
    ensures
        yes == names_cbor(codec),
{
    match codec {
        Some(c) => c == CBOR || c == DAG_CBOR,
        None => false,
    }
}

impl Clone for ContentHash {
    fn clone(&self) -> (copy: Self)
        ensures
            copy@ == self@,
    {
        ContentHash { bytes: slice_to_vec(self.bytes.as_slice()) }
    }
}

impl PartialEq for ContentHash {
    fn eq(&self, other: &Self) -> (same: bool) {
        bytes_eq(self.bytes.as_slice(), other.bytes.as_slice())
    }
}

impl Eq for ContentHash {

}

impl PartialEqSpecImpl for ContentHash {
    open spec fn obeys_eq_spec() -> bool {
        true
    }

    open spec fn eq_spec(&self, other: &Self) -> bool {
        self@ == other@
    }
}

/// The view of an identifier that may be missing.
pub open spec fn hash_view(hash: Option<ContentHash>) -> Option<Seq<u8>> {
    match hash {
        Some(h) => Some(h@),
        None => None,
    }
}

} // verus!
