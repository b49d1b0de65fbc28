//! The data block: the stored payload of one node block.
//!
//! On disk: block number, timestamp, payload length (8 bytes each, little-
//! endian), the payload, zero padding up to `block_size - 64`, and the
//! trailing 64-byte signature.

use vstd::prelude::*;

verus! {

use crate::codec::{le64_at, pad_zeros_to, parses_to, push_bytes, push_u64_le, read_bytes64_at, read_u64_at, zeros};
use crate::constants::Signature;
use crate::rdfs_errors::RDFSError;
use vstd::bytes::spec_u64_to_le_bytes;
use vstd::slice::{slice_subrange, slice_to_vec};

/// One stored block of payload data with its proof-of-spacetime header.
#[derive(Debug, Clone)]
pub struct DataBlock {
    /// Nonce of the block: its block id.
    pub block_number: u64,
    /// Timestamp of the block.
    pub timestamp: u64,
    /// The payload. A parsed block holds the full payload span, zero padding
    /// included.
    pub data: Vec<u8>,
    /// Signature over the serialized block without its trailing 64 bytes.
    pub signature: Signature,
}

/// The mathematical model of a data block.
#[verifier::ext_equal]
pub ghost struct DataBlockV {
    pub block_number: u64,
    pub timestamp: u64,
    pub data: Seq<u8>,
    pub signature: Seq<u8>,
}

impl View for DataBlock {
    type V = DataBlockV;

    open spec fn view(&self) -> DataBlockV {
        DataBlockV {
            block_number: self.block_number,
            timestamp: self.timestamp,
            data: self.data@,
            signature: self.signature@,
        }
    }
}

/// The serialization of a data block in a block of `block_size` bytes.
pub open spec fn spec_data_to_bytes(v: DataBlockV, block_size: int) -> Seq<u8> {
    spec_u64_to_le_bytes(v.block_number) + spec_u64_to_le_bytes(v.timestamp)
        + spec_u64_to_le_bytes(v.data.len() as u64) + v.data + zeros(
        block_size - 88 - v.data.len(),
    ) + v.signature
}

/// Parses a data block: the buffer must be exactly `block_size` bytes and
/// declare a payload length within the payload capacity. The payload kept is
/// the full span from byte 24 up to the signature, zero padding included.
pub open spec fn spec_data_from_bytes(data: Seq<u8>, block_size: int) -> Result<
    DataBlockV,
    RDFSError,
> {
    if data.len() != block_size {
        Err(RDFSError::InvalidDataBlockLength)
    } else if block_size < 88 {
        Err(RDFSError::InvalidEncodedDataBlockLength)
    } else if le64_at(data, 16) > block_size - 88 {
        Err(RDFSError::InvalidEncodedDataBlockLength)
    } else {
        Ok(
            DataBlockV {
                block_number: le64_at(data, 0),
                timestamp: le64_at(data, 8),
                data: data.subrange(24, block_size - 64),
                signature: data.subrange(block_size - 64, block_size),
            },
        )
    }
}

impl DataBlock {
    /// Wraps a payload with its block id and timestamp; the signature starts
    /// zeroed.
    pub fn new(block_number: u64, timestamp: u64, data: &[u8]) -> (r: Self)
        ensures
            r.block_number == block_number,
            r.timestamp == timestamp,
            r.data@ == data@,
            r.signature@ == zeros(64),
    {
        let r = Self { block_number, timestamp, data: slice_to_vec(data), signature: [0u8; 64] };
        proof {
            assert(r.signature@ =~= zeros(64));
        }
        r
    }

    /// Replaces the trailing signature.
    pub fn add_signature(&mut self, signature: Signature)
        ensures
            *final(self) == (DataBlock { signature, ..*old(self) }),
    {
        self.signature = signature;
    }

    /// Serializes the block into exactly `block_size` bytes. The payload
    /// must fit the capacity `block_size - 88`.
    pub fn to_bytes(&self, block_size: usize) -> (r: Vec<u8>)
        requires
            block_size >= 88,
            self.data@.len() <= block_size - 88,
        ensures
            r@ == spec_data_to_bytes(self@, block_size as int),
            r@.len() == block_size,
    {
        proof {
            vstd::bytes::lemma_auto_spec_u64_to_from_le_bytes();
        }
        let mut encoded: Vec<u8> = Vec::new();
        push_u64_le(&mut encoded, self.block_number);
        push_u64_le(&mut encoded, self.timestamp);
        push_u64_le(&mut encoded, self.data.len() as u64);
        push_bytes(&mut encoded, self.data.as_slice());
        pad_zeros_to(&mut encoded, block_size - 64);
        push_bytes(&mut encoded, self.signature.as_slice());
        proof {
            assert(encoded@ =~= spec_data_to_bytes(self@, block_size as int));
        }
        encoded
    }

    /// Parses a data block of the given block size, rejecting a buffer of
    /// the wrong length and a payload length beyond the capacity.
    pub fn from_bytes(data: &[u8], block_size: usize) -> (r: Result<Self, RDFSError>)
        ensures
            parses_to(r, spec_data_from_bytes(data@, block_size as int)),
    {
        if data.len() != block_size {
            return Err(RDFSError::InvalidDataBlockLength);
        }
        if block_size < 88 {
            return Err(RDFSError::InvalidEncodedDataBlockLength);
        }
        let block_number = read_u64_at(data, 0);
        let timestamp = read_u64_at(data, 8);
        let length = read_u64_at(data, 16);
        if length > (block_size - 88) as u64 {
            return Err(RDFSError::InvalidEncodedDataBlockLength);
        }
        let content = slice_to_vec(slice_subrange(data, 24, block_size - 64));
        let signature = read_bytes64_at(data, block_size - 64);
        let r = Self { block_number, timestamp, data: content, signature };
        proof {
            let s = spec_data_from_bytes(data@, block_size as int);
            assert(s is Ok);
            assert(r@ =~= s->Ok_0);
        }
        Ok(r)
    }
}

/// Serializing a data block and parsing the result preserves the block id,
/// the timestamp, the declared payload length, the payload itself (as the
/// prefix of the parsed payload span) and the signature. The parsed payload
/// is the original payload followed by the zero padding.
pub proof fn lemma_data_block_round_trip(v: DataBlockV, block_size: int)
    requires
        v.signature.len() == 64,
        88 <= block_size <= u64::MAX,
        v.data.len() <= block_size - 88,
    ensures
        ({
            let b = spec_data_to_bytes(v, block_size);
            let parsed = spec_data_from_bytes(b, block_size);
            &&& parsed is Ok
            &&& parsed->Ok_0.block_number == v.block_number
            &&& parsed->Ok_0.timestamp == v.timestamp
            &&& le64_at(b, 16) == v.data.len()
            &&& parsed->Ok_0.data == v.data + zeros(block_size - 88 - v.data.len())
            &&& parsed->Ok_0.data.subrange(0, v.data.len() as int) == v.data
            &&& parsed->Ok_0.signature == v.signature
        }),
{
    vstd::bytes::lemma_auto_spec_u64_to_from_le_bytes();
    let b = spec_data_to_bytes(v, block_size);
    assert(b.len() == block_size);
    assert(b.subrange(0, 8) =~= spec_u64_to_le_bytes(v.block_number));
    assert(b.subrange(8, 16) =~= spec_u64_to_le_bytes(v.timestamp));
    assert(b.subrange(16, 24) =~= spec_u64_to_le_bytes(v.data.len() as u64));
    assert(b.subrange(24, block_size - 64) =~= v.data + zeros(block_size - 88 - v.data.len()));
    assert(b.subrange(block_size - 64, block_size) =~= v.signature);
    let parsed = spec_data_from_bytes(b, block_size);
    assert(parsed is Ok);
    assert(parsed->Ok_0.data.subrange(0, v.data.len() as int) =~= v.data);
}

} // verus!
