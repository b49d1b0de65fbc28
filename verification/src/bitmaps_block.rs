//! The allocation bitmap of a shared drive.
//!
//! Each bit tracks one data block: bit `i` set means block `i` is allocated.
//! Bit `i` lives in byte `i / 8` at position `i % 8`, little-endian within
//! the byte. The block also carries the count of free blocks, which always
//! equals the number of clear bits, and the time of the last mutation.

use vstd::prelude::*;

verus! {

use crate::codec::{le64_at, parses_to, push_bytes, push_u64_le, read_bytes64_at, read_u64_at};
use crate::constants::Signature;
use crate::rdfs_errors::RDFSError;
use crate::utils::current_time_as_u64;
use vstd::bytes::{spec_u64_to_le_bytes};
use vstd::pervasive::VecAdditionalExecFns;
use vstd::slice::{slice_subrange, slice_to_vec};

/// Whether bit `i` of the bit field is set. Out-of-range indexes read as
/// clear.
pub open spec fn spec_get_bit(field: Seq<u8>, i: int) -> bool {
    &&& 0 <= i
    &&& i / 8 < field.len()
    &&& (field[i / 8] >> ((i % 8) as u8)) & 1 == 1
}

/// The number of clear bits among the first `n` bit positions.
pub open spec fn count_zeros(field: Seq<u8>, n: int) -> int
    decreases n,
{
    if n <= 0 {
        0
    } else {
        count_zeros(field, n - 1) + if spec_get_bit(field, n - 1) {
            0int
        } else {
            1int
        }
    }
}

/// A block representing a bitmap for tracking allocation of data blocks.
#[derive(Debug, Clone)]
pub struct BitmapsBlock {
    /// Total number of blocks tracked by the bitmap.
    pub total_blocks: u64,
    /// Number of free blocks: always the count of clear bits.
    pub free_blocks: u64,
    /// Timestamp of the last mutation.
    pub last_modify: u64,
    /// The bit field, one bit per block.
    pub bit_field: Vec<u8>,
    /// Signature over the serialized block without its trailing 64 bytes.
    pub signature: Signature,
}

/// The mathematical model of a bitmap block.
#[verifier::ext_equal]
pub ghost struct BitmapsBlockV {
    pub total_blocks: u64,
    pub free_blocks: u64,
    pub last_modify: u64,
    pub bit_field: Seq<u8>,
    pub signature: Seq<u8>,
}

impl View for BitmapsBlock {
    type V = BitmapsBlockV;

    open spec fn view(&self) -> BitmapsBlockV {
        BitmapsBlockV {
            total_blocks: self.total_blocks,
            free_blocks: self.free_blocks,
            last_modify: self.last_modify,
            bit_field: self.bit_field@,
            signature: self.signature@,
        }
    }
}

/// The bitmap invariant: every byte of the bit field is fully populated and
/// the free count agrees with the clear bits.
pub open spec fn bitmaps_wf(v: BitmapsBlockV) -> bool {
    &&& v.bit_field.len() * 8 == v.total_blocks
    &&& v.free_blocks == count_zeros(v.bit_field, v.total_blocks as int)
}

/// A field whose first `n` bits are all clear has `n` clear bits.
proof fn lemma_count_zeros_all_clear(field: Seq<u8>, n: int)
    requires
        forall|i: int| 0 <= i < n ==> !spec_get_bit(field, i),
    ensures
        count_zeros(field, n) == if n >= 0 {
            n
        } else {
            0
        },
    decreases n,
{
    if n > 0 {
        lemma_count_zeros_all_clear(field, n - 1);
    }
}

/// The clear-bit count lies between zero and `n`.
proof fn lemma_count_zeros_bounds(field: Seq<u8>, n: int)
    ensures
        0 <= count_zeros(field, n) <= if n >= 0 {
            n
        } else {
            0
        },
    decreases n,
{
    if n > 0 {
        lemma_count_zeros_bounds(field, n - 1);
    }
}

/// Flipping exactly one clear bit to set removes exactly one from the
/// clear-bit count.
proof fn lemma_count_zeros_flip_up(f1: Seq<u8>, f2: Seq<u8>, i: int, n: int)
    requires
        forall|j: int| 0 <= j < n && j != i ==> spec_get_bit(f2, j) == spec_get_bit(f1, j),
        0 <= i < n,
        !spec_get_bit(f1, i),
        spec_get_bit(f2, i),
    ensures
        count_zeros(f2, n) == count_zeros(f1, n) - 1,
    decreases n,
{
    if i == n - 1 {
        lemma_count_zeros_same(f1, f2, n - 1, i);
    } else {
        lemma_count_zeros_flip_up(f1, f2, i, n - 1);
    }
}

/// Two fields agreeing on every bit below `n` except possibly `except`,
/// which itself is not below `n`, have the same clear-bit count.
proof fn lemma_count_zeros_same(f1: Seq<u8>, f2: Seq<u8>, n: int, except: int)
    requires
        forall|j: int| 0 <= j < n && j != except ==> spec_get_bit(f2, j) == spec_get_bit(f1, j),
        !(0 <= except < n),
    ensures
        count_zeros(f2, n) == count_zeros(f1, n),
    decreases n,
{
    if n > 0 {
        lemma_count_zeros_same(f1, f2, n - 1, except);
    }
}

/// A clear bit below `n` makes the clear-bit count positive.
proof fn lemma_count_zeros_pos(field: Seq<u8>, i: int, n: int)
    requires
        0 <= i < n,
        !spec_get_bit(field, i),
    ensures
        count_zeros(field, n) >= 1,
    decreases n,
{
    lemma_count_zeros_bounds(field, i);
    if i < n - 1 {
        lemma_count_zeros_pos(field, i, n - 1);
    }
}

/// A set bit below `n` keeps the clear-bit count strictly under `n`.
proof fn lemma_count_zeros_capped(field: Seq<u8>, i: int, n: int)
    requires
        0 <= i < n,
        spec_get_bit(field, i),
    ensures
        count_zeros(field, n) < n,
    decreases n,
{
    lemma_count_zeros_bounds(field, n - 1);
    if i < n - 1 {
        lemma_count_zeros_capped(field, i, n - 1);
    }
}

/// Setting bit `k` of a byte: bit `j` of the result is set iff `j == k` or
/// it was set before.
proof fn lemma_or_bit(b: u8, k: u8, j: u8)
    requires
        k < 8,
        j < 8,
    ensures
        ((b | (1u8 << k)) >> j) & 1 == if j == k {
            1u8
        } else {
            (b >> j) & 1
        },
{
    assert(((b | (1u8 << k)) >> j) & 1 == if j == k {
        1u8
    } else {
        (b >> j) & 1
    }) by (bit_vector)
        requires
            k < 8,
            j < 8,
    ;
}

/// Clearing bit `k` of a byte: bit `j` of the result is set iff `j != k` and
/// it was set before.
proof fn lemma_and_not_bit(b: u8, k: u8, j: u8)
    requires
        k < 8,
        j < 8,
    ensures
        ((b & !(1u8 << k)) >> j) & 1 == if j == k {
            0u8
        } else {
            (b >> j) & 1
        },
{
    assert(((b & !(1u8 << k)) >> j) & 1 == if j == k {
        0u8
    } else {
        (b >> j) & 1
    }) by (bit_vector)
        requires
            k < 8,
            j < 8,
    ;
}

/// Testing a bit through a mask agrees with testing it through a shift.
proof fn lemma_mask_test(b: u8, k: u8)
    requires
        k < 8,
    ensures
        (b & (1u8 << k)) == 0 <==> ((b >> k) & 1) == 0,
        ((b >> k) & 1) == 0 || ((b >> k) & 1) == 1,
{
    assert(((b & (1u8 << k)) == 0 <==> ((b >> k) & 1) == 0) && (((b >> k) & 1) == 0 || ((b >> k)
        & 1) == 1)) by (bit_vector)
        requires
            k < 8,
    ;
}

impl BitmapsBlock {
    /// Creates a fresh bitmap with every bit clear and every block free.
    pub fn new(total_blocks: u64, timestamp: u64) -> (r: Self)
        requires
            total_blocks % 8 == 0,
            total_blocks / 8 <= usize::MAX,
        ensures
            r@.total_blocks == total_blocks,
            r@.free_blocks == total_blocks,
            r@.last_modify == timestamp,
            r@.bit_field == crate::codec::zeros(total_blocks as int / 8),
            r@.signature == crate::codec::zeros(64),
            bitmaps_wf(r@),
            forall|i: int| !spec_get_bit(r@.bit_field, i),
    {
        let len = (total_blocks / 8) as usize;
        let mut bit_field: Vec<u8> = Vec::new();
        let mut i: usize = 0;
        while i < len
            invariant
                i <= len,
                bit_field@ =~= crate::codec::zeros(i as int),
            decreases len - i,
        {
            bit_field.push(0u8);
            assert(bit_field@ =~= crate::codec::zeros(i + 1));
            i = i + 1;
        }
        let r = Self {
            total_blocks,
            free_blocks: total_blocks,
            last_modify: timestamp,
            bit_field,
            signature: [0u8; 64],
        };
        proof {
            assert forall|j: int| !spec_get_bit(r@.bit_field, j) by {
                if 0 <= j && j / 8 < r@.bit_field.len() {
                    assert(r@.bit_field[j / 8] == 0);
                    let k = (j % 8) as u8;
                    assert((0u8 >> k) & 1 == 0) by (bit_vector);
                }
            }
            lemma_count_zeros_all_clear(r@.bit_field, total_blocks as int);
            assert(r@.signature =~= crate::codec::zeros(64));
        }
        r
    }

    /// Replaces the trailing signature.
    pub fn add_signature(&mut self, signature: Signature)
        ensures
            *final(self) == (BitmapsBlock { signature, ..*old(self) }),
    {
        self.signature = signature;
    }

    /// Whether bit `bit_index` is set; out-of-range indexes read as clear.
    pub fn get_bit(&self, bit_index: usize) -> (r: bool)
        ensures
            r == spec_get_bit(self.bit_field@, bit_index as int),
    {
        let byte = bit_index / 8;
        let bit: u8 = (bit_index % 8) as u8;
        if byte >= self.bit_field.len() {
            return false;
        }
        let b = self.bit_field[byte];
        proof {
            lemma_mask_test(b, bit);
        }
        (b & (1u8 << bit)) != 0
    }

    /// Sets bit `bit_index`. If the bit was clear and in range, one block
    /// stops being free and the modification time is refreshed from the wall
    /// clock, where available; an already-set or out-of-range bit leaves the
    /// whole state untouched.
    pub fn set_bit(&mut self, bit_index: usize)
        requires
            bitmaps_wf(old(self)@),
        ensures
            bitmaps_wf(final(self)@),
            final(self).total_blocks == old(self).total_blocks,
            final(self).signature == old(self).signature,
            final(self).bit_field@.len() == old(self).bit_field@.len(),
            spec_get_bit(old(self).bit_field@, bit_index as int) || (bit_index as int) / 8 >= old(
                self,
            ).bit_field@.len() ==> *final(self) == *old(self),
            !spec_get_bit(old(self).bit_field@, bit_index as int) && (bit_index as int) / 8 < old(
                self,
            ).bit_field@.len() ==> {
                &&& forall|j: int|
                    spec_get_bit(final(self).bit_field@, j) == (j == bit_index as int
                        || spec_get_bit(old(self).bit_field@, j))
                &&& final(self).free_blocks == old(self).free_blocks - 1
            },
    {
        let byte = bit_index / 8;
        let bit: u8 = (bit_index % 8) as u8;
        if byte < self.bit_field.len() {
            let mask = 1u8 << bit;
            let b = self.bit_field[byte];
            proof {
                lemma_mask_test(b, bit);
            }
            if b & mask == 0 {
                assert(!spec_get_bit(self.bit_field@, bit_index as int));
                let ghost old_field = self.bit_field@;
                self.bit_field.set(byte, b | mask);
                proof {
                    let i = bit_index as int;
                    assert forall|j: int|
                        spec_get_bit(self.bit_field@, j) == (j == i || spec_get_bit(
                            old_field,
                            j,
                        )) by {
                        if 0 <= j && j / 8 < old_field.len() {
                            if j / 8 == byte {
                                lemma_or_bit(b, bit, (j % 8) as u8);
                                assert(j == i <==> (j / 8 == i / 8 && j % 8 == i % 8));
                            }
                        }
                    }
                    lemma_count_zeros_pos(old_field, i, self.total_blocks as int);
                    lemma_count_zeros_flip_up(
                        old_field,
                        self.bit_field@,
                        i,
                        self.total_blocks as int,
                    );
                }
                self.free_blocks = self.free_blocks - 1;
                if let Ok(time) = current_time_as_u64() {
                    self.last_modify = time;
                }
            }
        }
    }

    /// Clears bit `bit_index`. If the bit was set and in range, one block
    /// becomes free and the modification time is refreshed from the wall
    /// clock, where available; an already-clear or out-of-range bit leaves
    /// the whole state untouched.
    pub fn clear_bit(&mut self, bit_index: usize)
        requires
            bitmaps_wf(old(self)@),
        ensures
            bitmaps_wf(final(self)@),
            final(self).total_blocks == old(self).total_blocks,
            final(self).signature == old(self).signature,
            final(self).bit_field@.len() == old(self).bit_field@.len(),
            !spec_get_bit(old(self).bit_field@, bit_index as int) ==> *final(self) == *old(self),
            spec_get_bit(old(self).bit_field@, bit_index as int) ==> {
                &&& forall|j: int|
                    spec_get_bit(final(self).bit_field@, j) == (j != bit_index as int
                        && spec_get_bit(old(self).bit_field@, j))
                &&& final(self).free_blocks == old(self).free_blocks + 1
            },
    {
        let byte = bit_index / 8;
        let bit: u8 = (bit_index % 8) as u8;
        if byte < self.bit_field.len() {
            let mask = 1u8 << bit;
            let b = self.bit_field[byte];
            proof {
                lemma_mask_test(b, bit);
            }
            if b & mask != 0 {
                assert(spec_get_bit(self.bit_field@, bit_index as int));
                let ghost old_field = self.bit_field@;
                self.bit_field.set(byte, b & !mask);
                proof {
                    let i = bit_index as int;
                    assert forall|j: int|
                        spec_get_bit(self.bit_field@, j) == (j != i && spec_get_bit(
                            old_field,
                            j,
                        )) by {
                        if 0 <= j && j / 8 < old_field.len() {
                            if j / 8 == byte {
                                lemma_and_not_bit(b, bit, (j % 8) as u8);
                                assert(j == i <==> (j / 8 == i / 8 && j % 8 == i % 8));
                            }
                        }
                    }
                    lemma_count_zeros_capped(old_field, i, self.total_blocks as int);
                    lemma_count_zeros_flip_up(
                        self.bit_field@,
                        old_field,
                        i,
                        self.total_blocks as int,
                    );
                }
                self.free_blocks = self.free_blocks + 1;
                if let Ok(time) = current_time_as_u64() {
                    self.last_modify = time;
                }
            }
        }
    }

    /// Serializes the bitmap: four u64 fields, the bit field, the signature.
    pub fn to_bytes(&self) -> (r: Vec<u8>)
        ensures
            r@ == spec_bitmaps_to_bytes(self@),
            r@.len() == 96 + self.bit_field@.len(),
    {
        let mut encoded: Vec<u8> = Vec::new();
        push_u64_le(&mut encoded, self.total_blocks);
        push_u64_le(&mut encoded, self.free_blocks);
        push_u64_le(&mut encoded, self.last_modify);
        push_u64_le(&mut encoded, self.bit_field.len() as u64);
        push_bytes(&mut encoded, self.bit_field.as_slice());
        push_bytes(&mut encoded, self.signature.as_slice());
        proof {
            vstd::bytes::lemma_auto_spec_u64_to_from_le_bytes();
            assert(encoded@ =~= spec_bitmaps_to_bytes(self@));
        }
        encoded
    }

    /// Parses a bitmap of the given overall size, rejecting a buffer of the
    /// wrong length and a declared bit-field length inconsistent with it.
    pub fn from_bytes(data: &[u8], bitmaps_size: usize) -> (r: Result<Self, RDFSError>)
        ensures
            parses_to(r, spec_bitmaps_from_bytes(data@, bitmaps_size as int)),
    {
        if data.len() != bitmaps_size {
            return Err(RDFSError::InvalidBitmapsBlockLength);
        }
        if bitmaps_size < 96 {
            return Err(RDFSError::InvalidEncodedBitmapsBlockLength);
        }
        let total_blocks = read_u64_at(data, 0);
        let free_blocks = read_u64_at(data, 8);
        let last_modify = read_u64_at(data, 16);
        let length = read_u64_at(data, 24);
        if length != (bitmaps_size - 96) as u64 {
            return Err(RDFSError::InvalidEncodedBitmapsBlockLength);
        }
        let bit_field = slice_to_vec(slice_subrange(data, 32, bitmaps_size - 64));
        let signature = read_bytes64_at(data, bitmaps_size - 64);
        let r = Self { total_blocks, free_blocks, last_modify, bit_field, signature };
        proof {
            let s = spec_bitmaps_from_bytes(data@, bitmaps_size as int);
            assert(s is Ok);
            assert(r@ =~= s->Ok_0);
        }
        Ok(r)
    }
}

/// The serialization of a bitmap block: `total_blocks`, `free_blocks`,
/// `last_modify`, the bit-field length, the bit field, the signature.
pub open spec fn spec_bitmaps_to_bytes(v: BitmapsBlockV) -> Seq<u8> {
    spec_u64_to_le_bytes(v.total_blocks) + spec_u64_to_le_bytes(v.free_blocks)
        + spec_u64_to_le_bytes(v.last_modify) + spec_u64_to_le_bytes(v.bit_field.len() as u64)
        + v.bit_field + v.signature
}

/// Parses a bitmap block: the buffer must have exactly the expected size and
/// declare a bit field that fills it exactly.
pub open spec fn spec_bitmaps_from_bytes(data: Seq<u8>, bitmaps_size: int) -> Result<
    BitmapsBlockV,
    RDFSError,
> {
    if data.len() != bitmaps_size {
        Err(RDFSError::InvalidBitmapsBlockLength)
    } else if bitmaps_size < 96 {
        Err(RDFSError::InvalidEncodedBitmapsBlockLength)
    } else if 96 + le64_at(data, 24) != bitmaps_size {
        Err(RDFSError::InvalidEncodedBitmapsBlockLength)
    } else {
        Ok(
            BitmapsBlockV {
                total_blocks: le64_at(data, 0),
                free_blocks: le64_at(data, 8),
                last_modify: le64_at(data, 16),
                bit_field: data.subrange(32, bitmaps_size - 64),
                signature: data.subrange(bitmaps_size - 64, bitmaps_size),
            },
        )
    }
}

/// Serializing a bitmap block and parsing the result gives the block back,
/// for every model whose signature has its on-disk width.
pub proof fn lemma_bitmaps_round_trip(v: BitmapsBlockV)
    requires
        v.signature.len() == 64,
        v.bit_field.len() <= u64::MAX,
    ensures
        spec_bitmaps_from_bytes(spec_bitmaps_to_bytes(v), 96 + v.bit_field.len() as int) == Ok::<
            BitmapsBlockV,
            RDFSError,
        >(v),
{
    vstd::bytes::lemma_auto_spec_u64_to_from_le_bytes();
    let b = spec_bitmaps_to_bytes(v);
    let size = 96 + v.bit_field.len() as int;
    assert(b.len() == size);
    assert(b.subrange(0, 8) =~= spec_u64_to_le_bytes(v.total_blocks));
    assert(b.subrange(8, 16) =~= spec_u64_to_le_bytes(v.free_blocks));
    assert(b.subrange(16, 24) =~= spec_u64_to_le_bytes(v.last_modify));
    assert(b.subrange(24, 32) =~= spec_u64_to_le_bytes(v.bit_field.len() as u64));
    assert(b.subrange(32, size - 64) =~= v.bit_field);
    assert(b.subrange(size - 64, size) =~= v.signature);
    assert(spec_bitmaps_from_bytes(b, size)->Ok_0 =~= v);
}

} // verus!
