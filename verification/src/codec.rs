//! Little-endian byte framing shared by every block serializer and parser.
//!
//! All integers of the on-disk format are little-endian. The helpers here
//! read and write fixed-width integers and fixed-width byte runs at given
//! offsets, each with an exact contract over the byte sequence.

use vstd::prelude::*;

verus! {

use vstd::bytes::{spec_u32_from_le_bytes, spec_u64_from_le_bytes, u32_to_le_bytes, u64_to_le_bytes, u32_from_le_bytes, u64_from_le_bytes};
use vstd::slice::slice_subrange;

/// The u64 encoded little-endian at byte offset `off` of `data`.
pub open spec fn le64_at(data: Seq<u8>, off: int) -> u64 {
    spec_u64_from_le_bytes(data.subrange(off, off + 8))
}

/// The u32 encoded little-endian at byte offset `off` of `data`.
pub open spec fn le32_at(data: Seq<u8>, off: int) -> u32 {
    spec_u32_from_le_bytes(data.subrange(off, off + 4))
}

/// Relates the result of an executable parser to the result of its
/// mathematical model: the same error, or a value whose view is the model's.
pub open spec fn parses_to<T: View>(
    r: Result<T, crate::rdfs_errors::RDFSError>,
    s: Result<T::V, crate::rdfs_errors::RDFSError>,
) -> bool {
    match r {
        Ok(v) => s == Ok::<T::V, crate::rdfs_errors::RDFSError>(v@),
        Err(e) => s == Err::<T::V, crate::rdfs_errors::RDFSError>(e),
    }
}

/// A run of `n` zero bytes.
pub open spec fn zeros(n: int) -> Seq<u8> {
    Seq::new(n as nat, |i: int| 0u8)
}

/// Reads the little-endian u64 at offset `off`.
pub fn read_u64_at(data: &[u8], off: usize) -> (x: u64)
    requires
        off + 8 <= data@.len(),
    ensures
        x == le64_at(data@, off as int),
{
    let n = data.len();
    assert(off + 8 <= n);
    let s = slice_subrange(data, off, off + 8);
    u64_from_le_bytes(s)
}

/// Reads the little-endian u32 at offset `off`.
pub fn read_u32_at(data: &[u8], off: usize) -> (x: u32)
    requires
        off + 4 <= data@.len(),
    ensures
        x == le32_at(data@, off as int),
{
    let n = data.len();
    assert(off + 4 <= n);
    let s = slice_subrange(data, off, off + 4);
    u32_from_le_bytes(s)
}

/// Appends the little-endian encoding of `x` to `out`.
pub fn push_u64_le(out: &mut Vec<u8>, x: u64)
    ensures
        final(out)@ == old(out)@ + vstd::bytes::spec_u64_to_le_bytes(x),
{
    let mut t = u64_to_le_bytes(x);
    out.append(&mut t);
}

/// Appends the little-endian encoding of `x` to `out`.
pub fn push_u32_le(out: &mut Vec<u8>, x: u32)
    ensures
        final(out)@ == old(out)@ + vstd::bytes::spec_u32_to_le_bytes(x),
{
    let mut t = u32_to_le_bytes(x);
    out.append(&mut t);
}

/// Appends every byte of `s` to `out`, in order.
pub fn push_bytes(out: &mut Vec<u8>, s: &[u8])
    ensures
        final(out)@ == old(out)@ + s@,
{
    let n = s.len();
    let mut i: usize = 0;
    while i < n
        invariant
            n == s@.len(),
            i <= n,
            out@ == old(out)@ + s@.subrange(0, i as int),
        decreases n - i,
    {
        let b = *vstd::slice::slice_index_get(s, i);
        out.push(b);
        assert(old(out)@ + s@.subrange(0, i as int) + seq![s@[i as int]] =~= old(out)@
            + s@.subrange(0, i + 1 as int));
        i = i + 1;
    }
    assert(s@.subrange(0, n as int) =~= s@);
}

/// Appends zero bytes to `out` until its length reaches `target`.
pub fn pad_zeros_to(out: &mut Vec<u8>, target: usize)
    requires
        old(out)@.len() <= target,
    ensures
        final(out)@ == old(out)@ + zeros(target - old(out)@.len()),
{
    let start = out.len();
    let mut i: usize = start;
    while i < target
        invariant
            start == old(out)@.len(),
            start <= i <= target,
            out@ == old(out)@ + zeros(i - start),
        decreases target - i,
    {
        out.push(0u8);
        assert(old(out)@ + zeros(i - start) + seq![0u8] =~= old(out)@ + zeros(i + 1 - start));
        i = i + 1;
    }
}

/// Copies the 32 bytes at offset `off` of `data` into a fresh address-sized array.
pub fn read_bytes32_at(data: &[u8], off: usize) -> (r: [u8; 32])
    requires
        off + 32 <= data@.len(),
    ensures
        r@ == data@.subrange(off as int, off + 32),
{
    let mut r: [u8; 32] = [0u8; 32];
    let n = data.len();
    let mut i: usize = 0;
    while i < 32
        invariant
            off + 32 <= n == data@.len(),
            i <= 32,
            r@.len() == 32,
            forall|j: int| 0 <= j < i ==> r@[j] == data@[off + j],
        decreases 32 - i,
    {
        r[i] = *vstd::slice::slice_index_get(data, off + i);
        i = i + 1;
    }
    assert(r@ =~= data@.subrange(off as int, off + 32));
    r
}

/// Copies the 64 bytes at offset `off` of `data` into a fresh signature-sized array.
pub fn read_bytes64_at(data: &[u8], off: usize) -> (r: [u8; 64])
    requires
        off + 64 <= data@.len(),
    ensures
        r@ == data@.subrange(off as int, off + 64),
{
    let mut r: [u8; 64] = [0u8; 64];
    let n = data.len();
    let mut i: usize = 0;
    while i < 64
        invariant
            off + 64 <= n == data@.len(),
            i <= 64,
            r@.len() == 64,
            forall|j: int| 0 <= j < i ==> r@[j] == data@[off + j],
        decreases 64 - i,
    {
        r[i] = *vstd::slice::slice_index_get(data, off + i);
        i = i + 1;
    }
    assert(r@ =~= data@.subrange(off as int, off + 64));
    r
}

} // verus!
