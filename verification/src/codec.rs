//! The building blocks of the canonical binary encoding: integers of eight
//! bytes, lowest byte first, and byte strings behind their length.

use vstd::bytes::{
    lemma_auto_spec_u64_to_from_le_bytes, spec_u64_from_le_bytes, spec_u64_to_le_bytes,
    u64_from_le_bytes, u64_to_le_bytes,
};
use vstd::prelude::*;
use vstd::slice::{slice_subrange, slice_to_vec};

verus! {

/// A byte string behind its length.
pub open spec fn spec_field(bytes: Seq<u8>) -> Seq<u8> {
    spec_u64_to_le_bytes(bytes.len() as u64) + bytes
}

/// The integer that stands in the eight bytes from `at` on, where the bytes
/// reach that far.
pub open spec fn spec_read_u64(bytes: Seq<u8>, at: int) -> Option<u64> {
    if 0 <= at && at + 8 <= bytes.len() {
        Some(spec_u64_from_le_bytes(bytes.subrange(at, at + 8)))
    } else {
        None
    }
}

/// Appends an integer.
pub fn push_u64(out: &mut Vec<u8>, x: u64)
    ensures
        final(out)@ == old(out)@ + spec_u64_to_le_bytes(x),
{
    let mut word = u64_to_le_bytes(x);
    out.append(&mut word);
}

/// Appends bytes as they are.
pub fn push_all(out: &mut Vec<u8>, bytes: &[u8])
    ensures
        final(out)@ == old(out)@ + bytes@,
{
    let mut copy = slice_to_vec(bytes);
    out.append(&mut copy);
}

/// Appends a byte string behind its length.
pub fn push_field(out: &mut Vec<u8>, bytes: &[u8])
    ensures
        final(out)@ == old(out)@ + spec_field(bytes@),
        bytes@.len() <= u64::MAX,
{
    let ghost before = out@;
    push_u64(out, bytes.len() as u64);
    push_all(out, bytes);
    assert(out@ =~= before + spec_field(bytes@));
}

/// Reads the integer that stands at `at`.
pub fn read_u64(bytes: &[u8], at: usize) -> (x: Option<u64>)
    ensures
        x == spec_read_u64(bytes@, at as int),
{
    if bytes.len() >= 8 && at <= bytes.len() - 8 {
        Some(u64_from_le_bytes(slice_subrange(bytes, at, at + 8)))
    } else {
        None
    }
}

/// The integer at the front of some bytes, with the bytes behind it.
pub open spec fn spec_take_word(rest: Seq<u8>) -> Option<(u64, Seq<u8>)> {
    if rest.len() >= 8 {
        Some((spec_u64_from_le_bytes(rest.subrange(0, 8)), rest.skip(8)))
    } else {
        None
    }
}

/// The byte string behind its length at the front of some bytes, with the
/// bytes behind it.
pub open spec fn spec_take_field(rest: Seq<u8>) -> Option<(Seq<u8>, Seq<u8>)> {
    match spec_take_word(rest) {
        Some((length, after)) => if length <= after.len() {
            Some((after.take(length as int), after.skip(length as int)))
        } else {
            None
        },
        None => None,
    }
}

/// Takes the integer that stands at `at`, and gives the place behind it.
pub fn take_word(bytes: &[u8], at: usize) -> (taken: Option<(u64, usize)>)
    requires
        at <= bytes@.len(),
    ensures
        match taken {
            Some((word, next)) => at <= next <= bytes@.len() && spec_take_word(bytes@.skip(at as int))
                == Some((word, bytes@.skip(next as int))),
            None => spec_take_word(bytes@.skip(at as int)) is None,
        },
{
    if bytes.len() - at < 8 {
        return None;
    }
    let word = u64_from_le_bytes(slice_subrange(bytes, at, at + 8));
    assert(bytes@.skip(at as int).subrange(0, 8) =~= bytes@.subrange(at as int, at + 8));
    assert(bytes@.skip(at as int).skip(8) =~= bytes@.skip(at + 8));
    Some((word, at + 8))
}

/// Takes the byte string that stands behind its length at `at`, and gives
/// the place behind it.
pub fn take_field(bytes: &[u8], at: usize) -> (taken: Option<(Vec<u8>, usize)>)
    requires
        at <= bytes@.len(),
    ensures
        match taken {
            Some((field, next)) => at <= next <= bytes@.len() && spec_take_field(
                bytes@.skip(at as int),
            ) == Some((field@, bytes@.skip(next as int))),
            None => spec_take_field(bytes@.skip(at as int)) is None,
        },
{
    match take_word(bytes, at) {
        Some((length, start)) => {
            if length > (bytes.len() - start) as u64 {
                return None;
            }
            let end = start + length as usize;
            let field = slice_to_vec(slice_subrange(bytes, start, end));
            assert(bytes@.skip(start as int).take(length as int) =~= bytes@.subrange(
                start as int,
                end as int,
            ));
            assert(bytes@.skip(start as int).skip(length as int) =~= bytes@.skip(end as int));
            Some((field, end))
        },
        None => None,
    }
}

/// An integer that was written in front of some bytes is taken from them as
/// it was.
pub proof fn lemma_take_word(word: u64, tail: Seq<u8>)
    ensures
        spec_take_word(spec_u64_to_le_bytes(word) + tail) == Some((word, tail)),
{
    lemma_auto_spec_u64_to_from_le_bytes();
    let all = spec_u64_to_le_bytes(word) + tail;
    assert(all.subrange(0, 8) =~= spec_u64_to_le_bytes(word));
    assert(all.skip(8) =~= tail);
}

/// A byte string that was written behind its length in front of some bytes
/// is taken from them as it was.
pub proof fn lemma_take_field(field: Seq<u8>, tail: Seq<u8>)
    requires
        field.len() <= u64::MAX,
    ensures
        spec_take_field(spec_field(field) + tail) == Some((field, tail)),
{
    lemma_auto_spec_u64_to_from_le_bytes();
    assert(spec_field(field) + tail =~= spec_u64_to_le_bytes(field.len() as u64) + (field + tail));
    lemma_take_word(field.len() as u64, field + tail);
    assert((field + tail).take(field.len() as int) =~= field);
    assert((field + tail).skip(field.len() as int) =~= tail);
}

} // verus!
