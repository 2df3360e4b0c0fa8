//! Positioned reads from a block of bytes that is held in memory, such as a
//! mapped file.

use vstd::prelude::*;

verus! {

/// How many bytes a read at `pos` into a buffer of `buf_len` bytes takes from
/// `data_len` bytes of data: the whole buffer where that much is left, else
/// what is left.
pub open spec fn read_len(data_len: int, pos: int, buf_len: int) -> int {
    if pos + buf_len <= data_len {
        buf_len
    } else {
        data_len - pos
    }
}

/// Copies the bytes of `data` from `pos` on into the front of `buf` and
/// returns how many were copied. The rest of `buf` stays as it was.
pub fn read_at(data: &[u8], pos: u64, buf: &mut [u8]) -> (n: usize)
    requires
        pos <= data@.len(),
    ensures
        n == read_len(data@.len() as int, pos as int, old(buf)@.len() as int),
        final(buf)@.len() == old(buf)@.len(),
        final(buf)@.subrange(0, n as int) == data@.subrange(pos as int, pos + n),
        final(buf)@.subrange(n as int, old(buf)@.len() as int) == old(buf)@.subrange(
            n as int,
            old(buf)@.len() as int,
        ),
{
    let len: usize = data.len();
    let start: usize = pos as usize;
    let left: usize = len - start;
    let n: usize = if buf.len() <= left {
        buf.len()
    } else {
        left
    };
    let mut i: usize = 0;
    while i < n
        invariant
            i <= n,
            n <= buf@.len(),
            start + n <= data@.len() == len,
            buf@.len() == old(buf)@.len(),
            forall|k: int| 0 <= k < i ==> buf@[k] == data@[start + k],
            forall|k: int| i <= k < buf@.len() ==> buf@[k] == old(buf)@[k],
        decreases n - i,
    {
        buf[i] = data[start + i];
        i = i + 1;
    }
    assert(buf@.subrange(0, n as int) =~= data@.subrange(pos as int, pos + n));
    assert(buf@.subrange(n as int, buf@.len() as int) =~= old(buf)@.subrange(
        n as int,
        old(buf)@.len() as int,
    ));
    n
}

/// The size of the data, which is always known.
pub fn size(data: &[u8]) -> (n: Option<u64>)
    requires
        data@.len() <= u64::MAX,
    ensures
        n == Some(data@.len() as u64),
{
    Some(data.len() as u64)
}

} // verus!
