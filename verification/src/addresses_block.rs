//! The node-address block: the public keys of every node holding the drive.
//!
//! On disk: an 8-byte little-endian count, the 32-byte keys in order, and
//! the trailing 64-byte signature, `72 + 32 * len` bytes in all.

use vstd::prelude::*;

verus! {

use crate::codec::{le64_at, parses_to, push_bytes, push_u64_le, read_bytes32_at, read_bytes64_at, read_u64_at};
use crate::constants::{Address, Signature};
use crate::rdfs_errors::RDFSError;
use vstd::bytes::spec_u64_to_le_bytes;

/// A block holding the public keys of the participating nodes.
#[derive(Debug, Clone)]
pub struct AddressesBlock {
    /// The node public keys, in node order.
    pub addresses: Vec<Address>,
    /// Signature over the serialized block without its trailing 64 bytes.
    pub signature: Signature,
}

/// The mathematical model of an addresses block.
#[verifier::ext_equal]
pub ghost struct AddressesBlockV {
    pub addresses: Seq<Seq<u8>>,
    pub signature: Seq<u8>,
}

impl View for AddressesBlock {
    type V = AddressesBlockV;

    open spec fn view(&self) -> AddressesBlockV {
        AddressesBlockV {
            addresses: self.addresses@.map_values(|a: Address| a@),
            signature: self.signature@,
        }
    }
}

/// The concatenation of the addresses, in order.
pub open spec fn spec_addresses_bytes(addrs: Seq<Seq<u8>>) -> Seq<u8>
    decreases addrs.len(),
{
    if addrs.len() == 0 {
        Seq::empty()
    } else {
        spec_addresses_bytes(addrs.drop_last()) + addrs.last()
    }
}

/// A well-formed model: every address is 32 bytes and the signature 64.
pub open spec fn addresses_wf(v: AddressesBlockV) -> bool {
    &&& forall|i: int| 0 <= i < v.addresses.len() ==> v.addresses[i].len() == 32
    &&& v.signature.len() == 64
}

/// The concatenation of `n` 32-byte addresses is `32 * n` bytes long.
pub proof fn lemma_addresses_bytes_len(addrs: Seq<Seq<u8>>)
    requires
        forall|i: int| 0 <= i < addrs.len() ==> addrs[i].len() == 32,
    ensures
        spec_addresses_bytes(addrs).len() == 32 * addrs.len(),
    decreases addrs.len(),
{
    if addrs.len() > 0 {
        lemma_addresses_bytes_len(addrs.drop_last());
    }
}

/// Address `i` sits at bytes `32 * i .. 32 * i + 32` of the concatenation.
pub proof fn lemma_addresses_bytes_at(addrs: Seq<Seq<u8>>, i: int)
    requires
        forall|k: int| 0 <= k < addrs.len() ==> addrs[k].len() == 32,
        0 <= i < addrs.len(),
    ensures
        spec_addresses_bytes(addrs).subrange(32 * i, 32 * i + 32) == addrs[i],
    decreases addrs.len(),
{
    lemma_addresses_bytes_len(addrs);
    if i == addrs.len() - 1 {
        lemma_addresses_bytes_len(addrs.drop_last());
        assert(spec_addresses_bytes(addrs).subrange(32 * i, 32 * i + 32) =~= addrs[i]);
    } else {
        lemma_addresses_bytes_at(addrs.drop_last(), i);
        lemma_addresses_bytes_len(addrs.drop_last());
        assert(spec_addresses_bytes(addrs).subrange(32 * i, 32 * i + 32) =~= spec_addresses_bytes(
            addrs.drop_last(),
        ).subrange(32 * i, 32 * i + 32));
    }
}

/// The serialization of an addresses block: count, keys, signature.
pub open spec fn spec_addresses_to_bytes(v: AddressesBlockV) -> Seq<u8> {
    spec_u64_to_le_bytes(v.addresses.len() as u64) + spec_addresses_bytes(v.addresses)
        + v.signature
}

/// Parses an addresses block: the buffer must have exactly the expected size
/// and declare a key count that fills it exactly.
pub open spec fn spec_addresses_from_bytes(data: Seq<u8>, size: int) -> Result<
    AddressesBlockV,
    RDFSError,
> {
    if data.len() != size {
        Err(RDFSError::InvalidAddressBlockLength)
    } else if size < 72 {
        Err(RDFSError::InvalidEncodedAddressBlockLength)
    } else if 72 + 32 * le64_at(data, 0) != size {
        Err(RDFSError::InvalidEncodedAddressBlockLength)
    } else {
        Ok(
            AddressesBlockV {
                addresses: Seq::new(
                    le64_at(data, 0) as nat,
                    |i: int| data.subrange(8 + 32 * i, 8 + 32 * i + 32),
                ),
                signature: data.subrange(size - 64, size),
            },
        )
    }
}

impl AddressesBlock {
    /// Wraps a list of node keys and a signature as an addresses block.
    pub fn new(addresses: Vec<Address>, signature: Signature) -> (r: Self)
        ensures
            r.addresses == addresses,
            r.signature == signature,
    {
        Self { addresses, signature }
    }

    /// Replaces the trailing signature.
    pub fn add_signature(&mut self, signature: Signature)
        ensures
            *final(self) == (AddressesBlock { signature, ..*old(self) }),
    {
        self.signature = signature;
    }

    /// Serializes the block: count, keys in order, signature.
    pub fn to_bytes(&self) -> (r: Vec<u8>)
        ensures
            r@ == spec_addresses_to_bytes(self@),
            r@.len() == 72 + 32 * self.addresses@.len(),
    {
        let n = self.addresses.len();
        let mut encoded: Vec<u8> = Vec::new();
        push_u64_le(&mut encoded, n as u64);
        let ghost all = self@.addresses;
        let mut i: usize = 0;
        while i < n
            invariant
                n == self.addresses@.len(),
                all == self@.addresses,
                all.len() == n,
                i <= n,
                encoded@ == spec_u64_to_le_bytes(n as u64) + spec_addresses_bytes(
                    all.subrange(0, i as int),
                ),
            decreases n - i,
        {
            let a = &self.addresses[i];
            push_bytes(&mut encoded, a.as_slice());
            proof {
                assert(all.subrange(0, i + 1).drop_last() =~= all.subrange(0, i as int));
                assert(all.subrange(0, i + 1).last() == all[i as int]);
                assert(encoded@ =~= spec_u64_to_le_bytes(n as u64) + spec_addresses_bytes(
                    all.subrange(0, i + 1),
                ));
            }
            i = i + 1;
        }
        push_bytes(&mut encoded, self.signature.as_slice());
        proof {
            vstd::bytes::lemma_auto_spec_u64_to_from_le_bytes();
            assert(all.subrange(0, n as int) =~= all);
            lemma_addresses_bytes_len(all);
            assert(encoded@ =~= spec_addresses_to_bytes(self@));
        }
        encoded
    }

    /// Parses an addresses block of the given overall size, rejecting a
    /// buffer of the wrong length and a declared count inconsistent with it.
    pub fn from_bytes(data: &[u8], nodes_address_size: usize) -> (r: Result<Self, RDFSError>)
        ensures
            parses_to(r, spec_addresses_from_bytes(data@, nodes_address_size as int)),
    {
        if data.len() != nodes_address_size {
            return Err(RDFSError::InvalidAddressBlockLength);
        }
        if nodes_address_size < 72 {
            return Err(RDFSError::InvalidEncodedAddressBlockLength);
        }
        let length = read_u64_at(data, 0);
        let need: u128 = 72u128 + 32u128 * (length as u128);
        if need != nodes_address_size as u128 {
            return Err(RDFSError::InvalidEncodedAddressBlockLength);
        }
        let n = length as usize;
        let mut addresses: Vec<Address> = Vec::new();
        let mut i: usize = 0;
        while i < n
            invariant
                data@.len() == nodes_address_size,
                72 + 32 * (n as int) == nodes_address_size,
                i <= n,
                addresses@.len() == i,
                forall|k: int|
                    0 <= k < i ==> addresses@[k]@ == data@.subrange(8 + 32 * k, 8 + 32 * k + 32),
            decreases n - i,
        {
            let a = read_bytes32_at(data, 8 + i * 32);
            addresses.push(a);
            i = i + 1;
        }
        let signature = read_bytes64_at(data, nodes_address_size - 64);
        let r = Self { addresses, signature };
        proof {
            let s = spec_addresses_from_bytes(data@, nodes_address_size as int);
            assert(s is Ok);
            assert(r@.addresses =~= s->Ok_0.addresses);
            assert(r@ =~= s->Ok_0);
        }
        Ok(r)
    }
}

/// Serializing an addresses block and parsing the result gives the block
/// back, for every well-formed model.
pub proof fn lemma_addresses_round_trip(v: AddressesBlockV)
    requires
        addresses_wf(v),
        72 + 32 * v.addresses.len() <= u64::MAX,
    ensures
        spec_addresses_from_bytes(spec_addresses_to_bytes(v), 72 + 32 * v.addresses.len() as int)
            == Ok::<AddressesBlockV, RDFSError>(v),
{
    vstd::bytes::lemma_auto_spec_u64_to_from_le_bytes();
    lemma_addresses_bytes_len(v.addresses);
    let b = spec_addresses_to_bytes(v);
    let size = 72 + 32 * v.addresses.len() as int;
    assert(b.len() == size);
    assert(b.subrange(0, 8) =~= spec_u64_to_le_bytes(v.addresses.len() as u64));
    assert(le64_at(b, 0) == v.addresses.len() as u64);
    assert forall|i: int| 0 <= i < v.addresses.len() implies b.subrange(8 + 32 * i, 8 + 32 * i + 32)
        == v.addresses[i] by {
        lemma_addresses_bytes_at(v.addresses, i);
        assert(b.subrange(8 + 32 * i, 8 + 32 * i + 32) =~= spec_addresses_bytes(
            v.addresses,
        ).subrange(32 * i, 32 * i + 32));
    }
    assert(b.subrange(size - 64, size) =~= v.signature);
    let parsed = spec_addresses_from_bytes(b, size);
    assert(parsed is Ok);
    assert(parsed->Ok_0.addresses =~= v.addresses);
    assert(parsed->Ok_0 =~= v);
}

} // verus!
