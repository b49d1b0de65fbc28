//! The super block: root metadata of every RDFS drive.
//!
//! The super block records the drive parameters and every derived offset,
//! size and capacity of the shard file. The geometry is computed with exact
//! integer arithmetic: numerators and denominators are widened to u128 and
//! divided with explicit floor/ceiling corrections, so every pointer is
//! integer-exact.

use vstd::prelude::*;

verus! {

use crate::arith::{lemma_div_le_div, lemma_div_mul_le, lemma_mul_comm, lemma_mul_div_cancel, lemma_mul_le, lemma_mul_lower, lemma_mul_pos, lemma_mul_sub_one};
use crate::codec::{le64_at, parses_to, push_bytes, push_u64_le, read_bytes32_at, read_bytes64_at, read_u64_at};
use crate::constants::{Address, FS_MAGIC_PRIVATE, FS_MAGIC_SHARED, Signature};
use crate::rdfs_errors::RDFSError;
use vstd::bytes::{spec_u64_from_le_bytes, spec_u64_to_le_bytes, u64_to_le_bytes};
use vstd::slice::slice_subrange;

/// The two drive variants, told apart by the magic word of the super block.
#[derive(Debug, Clone, Copy, PartialEq, Eq, Structural)]
pub enum FileSystemType {
    /// Full file system: allocation bitmaps and an inode hierarchy.
    Shared,
    /// Flat, opaque block array.
    Private,
}

/// The magic word under which a drive variant is persisted.
pub open spec fn spec_magic_word(t: FileSystemType) -> u64 {
    match t {
        FileSystemType::Shared => FS_MAGIC_SHARED,
        FileSystemType::Private => FS_MAGIC_PRIVATE,
    }
}

/// Root metadata structure of the file system: drive parameters, derived
/// layout pointers and sizes, and the trailing signature.
#[derive(Debug, Clone)]
pub struct SuperBlock {
    /// Magic word identifying the drive variant.
    pub magic: FileSystemType,
    /// Owner of the filesystem, usually the creator's public key.
    pub owner: Address,
    /// ID of the program that created the filesystem.
    pub program_id: Address,
    /// Total logical storage size in bytes.
    pub storage: u64,
    /// Redundancy in percent units, not divided by 100 (300 means 3x).
    pub redundancy: u64,
    /// Total number of nodes holding the filesystem data.
    pub nodes: u64,
    /// Size of each block in bytes.
    pub block_size: u64,
    /// Total number of data blocks in this shard.
    pub total_blocks: u64,
    /// Client-visible block size before erasure coding (0 in a private drive).
    pub client_block_size: u64,
    /// Size of the physical shard file.
    pub node_storage: u64,
    /// Offset of the node address list.
    pub nodes_address_pointer: u64,
    /// Offset of the allocation bitmap (0 in a private drive).
    pub bitmaps_pointer: u64,
    /// Offset of the first data block.
    pub data_pointer: u64,
    /// Offset of the root directory inode (0 in a private drive).
    pub inode_pointer: u64,
    /// Size in bytes of the address region.
    pub nodes_address_size: u64,
    /// Size in bytes of the bitmap region (0 in a private drive).
    pub bitmaps_size: u64,
    /// Capacity of an inode's content vector.
    pub max_content_pointers: u64,
    /// Capacity of a linked inode's content vector.
    pub max_linked_content_pointers: u64,
    /// Signature over the first 192 bytes of the serialized block.
    pub signature: Signature,
}

/// Fixed overhead of a shared shard before the data region: super block,
/// address block, and the bitmap header.
pub open spec fn spec_shared_base(nodes: u64) -> int {
    424 + 32 * nodes
}

/// Fixed overhead of a private shard: super block and address block.
pub open spec fn spec_private_base(nodes: u64) -> int {
    328 + 32 * nodes
}

/// Numerator of the storage that remains for bitmap bits plus data blocks in
/// a shared shard, over the denominator `100 * nodes`.
pub open spec fn spec_shared_remain_num(storage: u64, redundancy: u64, nodes: u64) -> int {
    storage * redundancy - spec_shared_base(nodes) * 100 * nodes
}

/// Numerator of the storage that remains for data blocks in a private shard,
/// over the denominator `100 * nodes`.
pub open spec fn spec_private_remain_num(storage: u64, redundancy: u64, nodes: u64) -> int {
    storage * redundancy - spec_private_base(nodes) * 100 * nodes
}

/// Total data blocks of a shared shard: the remaining storage divided by
/// `block_size + 1/8` (each block also costs one bitmap bit), rounded up to a
/// multiple of eight.
pub open spec fn spec_shared_total_blocks(
    storage: u64,
    redundancy: u64,
    nodes: u64,
    block_size: u64,
) -> int {
    let n = spec_shared_remain_num(storage, redundancy, nodes);
    let d = 100 * nodes * (8 * block_size + 1);
    8 * (n / d + if n % d == 0 {
        0int
    } else {
        1int
    })
}

/// Total data blocks of a private shard: the remaining storage divided by the
/// block size, rounded up.
pub open spec fn spec_private_total_blocks(
    storage: u64,
    redundancy: u64,
    nodes: u64,
    block_size: u64,
) -> int {
    let n = spec_private_remain_num(storage, redundancy, nodes);
    let d = 100 * nodes * block_size;
    n / d + if n % d == 0 {
        0int
    } else {
        1int
    }
}

/// Physical size of a shared shard file.
pub open spec fn spec_shared_node_storage(
    storage: u64,
    redundancy: u64,
    nodes: u64,
    block_size: u64,
) -> int {
    let tb = spec_shared_total_blocks(storage, redundancy, nodes, block_size);
    spec_shared_base(nodes) + tb / 8 + tb * block_size
}

/// Physical size of a private shard file.
pub open spec fn spec_private_node_storage(
    storage: u64,
    redundancy: u64,
    nodes: u64,
    block_size: u64,
) -> int {
    let tb = spec_private_total_blocks(storage, redundancy, nodes, block_size);
    spec_private_base(nodes) + tb * block_size
}

/// Client-visible block size: the data capacity of a client block spread over
/// the nodes and shrunk by the redundancy ratio.
pub open spec fn spec_client_block_size(block_size: u64, nodes: u64, redundancy: u64) -> int {
    ((block_size - 92) * nodes * 100) / (redundancy as int)
}

/// Drive parameters the geometry accepts: at least one node, redundancy of at
/// least 100 percent, blocks of at least 2 KiB, and at least 1 MiB of storage
/// per node. Node count and block size are bounded so that every intermediate
/// product of the derivation fits in 128 bits.
pub open spec fn spec_params_accepted(
    storage: u64,
    redundancy: u64,
    nodes: u64,
    block_size: u64,
) -> bool {
    &&& 1 <= nodes <= u32::MAX
    &&& 100 <= redundancy
    &&& 2048 <= block_size <= u32::MAX
    &&& storage >= nodes * 1048576
}

/// The shared geometry leaves room for at least one block and its shard file
/// size fits in a u64.
pub open spec fn spec_shared_geometry_fits(
    storage: u64,
    redundancy: u64,
    nodes: u64,
    block_size: u64,
) -> bool {
    &&& spec_shared_remain_num(storage, redundancy, nodes) > 0
    &&& spec_shared_node_storage(storage, redundancy, nodes, block_size) <= u64::MAX
}

/// The private geometry leaves room for at least one block and its shard file
/// size fits in a u64.
pub open spec fn spec_private_geometry_fits(
    storage: u64,
    redundancy: u64,
    nodes: u64,
    block_size: u64,
) -> bool {
    &&& spec_private_remain_num(storage, redundancy, nodes) > 0
    &&& spec_private_node_storage(storage, redundancy, nodes, block_size) <= u64::MAX
}

impl SuperBlock {
    /// Builds the super block of a new virtual drive, deriving the whole
    /// layout from the drive parameters according to the variant.
    pub fn new(
        magic: FileSystemType,
        owner: Address,
        program_id: Address,
        storage: u64,
        redundancy: u64,
        nodes: u64,
        block_size: u64,
    ) -> (r: Self)
        requires
            spec_params_accepted(storage, redundancy, nodes, block_size),
            magic is Shared ==> spec_shared_geometry_fits(storage, redundancy, nodes, block_size),
            magic is Private ==> spec_private_geometry_fits(
                storage,
                redundancy,
                nodes,
                block_size,
            ),
        ensures
            magic is Shared ==> r == Self::spec_new_shared(
                owner,
                program_id,
                storage,
                redundancy,
                nodes,
                block_size,
            ),
            magic is Private ==> r == Self::spec_new_private(
                owner,
                program_id,
                storage,
                redundancy,
                nodes,
                block_size,
            ),
    {
        match magic {
            FileSystemType::Shared => Self::new_shared(
                magic,
                owner,
                program_id,
                storage,
                redundancy,
                nodes,
                block_size,
            ),
            FileSystemType::Private => Self::new_private(
                magic,
                owner,
                program_id,
                storage,
                redundancy,
                nodes,
                block_size,
            ),
        }
    }

    /// The super block a shared drive is created with. All derived fields
    /// follow from the four drive parameters; the signature starts zeroed.
    pub open spec fn spec_new_shared(
        owner: Address,
        program_id: Address,
        storage: u64,
        redundancy: u64,
        nodes: u64,
        block_size: u64,
    ) -> SuperBlock {
        let tb = spec_shared_total_blocks(storage, redundancy, nodes, block_size);
        let nas = 72 + 32 * nodes;
        let bms = 96 + tb / 8;
        SuperBlock {
            magic: FileSystemType::Shared,
            owner,
            program_id,
            storage,
            redundancy,
            nodes,
            block_size,
            total_blocks: tb as u64,
            client_block_size: spec_client_block_size(block_size, nodes, redundancy) as u64,
            node_storage: spec_shared_node_storage(storage, redundancy, nodes, block_size) as u64,
            nodes_address_pointer: 256,
            bitmaps_pointer: (256 + nas) as u64,
            data_pointer: (256 + nas + bms) as u64,
            inode_pointer: (256 + nas + bms + block_size * (tb - 1)) as u64,
            nodes_address_size: nas as u64,
            bitmaps_size: bms as u64,
            max_content_pointers: ((block_size - 1136) / 16) as u64,
            max_linked_content_pointers: ((block_size - 80) / 16) as u64,
            signature: vstd::array::spec_array_fill_for_copy_type::<u8, 64>(0u8),
        }
    }

    /// The super block a private drive is created with: no bitmap region, no
    /// inode region, no client block size.
    pub open spec fn spec_new_private(
        owner: Address,
        program_id: Address,
        storage: u64,
        redundancy: u64,
        nodes: u64,
        block_size: u64,
    ) -> SuperBlock {
        let tb = spec_private_total_blocks(storage, redundancy, nodes, block_size);
        let nas = 72 + 32 * nodes;
        SuperBlock {
            magic: FileSystemType::Private,
            owner,
            program_id,
            storage,
            redundancy,
            nodes,
            block_size,
            total_blocks: tb as u64,
            client_block_size: 0,
            node_storage: spec_private_node_storage(storage, redundancy, nodes, block_size) as u64,
            nodes_address_pointer: 256,
            bitmaps_pointer: 0,
            data_pointer: (256 + nas) as u64,
            inode_pointer: 0,
            nodes_address_size: nas as u64,
            bitmaps_size: 0,
            max_content_pointers: 0,
            max_linked_content_pointers: 0,
            signature: vstd::array::spec_array_fill_for_copy_type::<u8, 64>(0u8),
        }
    }

    /// Derives the shared layout. The storage that remains after the fixed
    /// overhead is divided by `block_size + 1/8` to get the block count,
    /// which is then rounded up to a multiple of eight so that every bitmap
    /// byte is fully populated; the shard size is recomputed from the rounded
    /// count, which closes the geometry exactly.
    pub fn new_shared(
        magic: FileSystemType,
        owner: Address,
        program_id: Address,
        storage: u64,
        redundancy: u64,
        nodes: u64,
        block_size: u64,
    ) -> (r: Self)
        requires
            spec_params_accepted(storage, redundancy, nodes, block_size),
            spec_shared_geometry_fits(storage, redundancy, nodes, block_size),
            magic is Shared,
        ensures
            r == Self::spec_new_shared(owner, program_id, storage, redundancy, nodes, block_size),
            r.total_blocks == spec_shared_total_blocks(storage, redundancy, nodes, block_size),
            r.node_storage == 256 + r.nodes_address_size + r.bitmaps_size + r.total_blocks
                * r.block_size,
            r.total_blocks % 8 == 0,
            8 <= r.total_blocks,
            r.inode_pointer == r.data_pointer + r.block_size * (r.total_blocks - 1),
    {
        let ghost g_tb = spec_shared_total_blocks(storage, redundancy, nodes, block_size);
        let ghost g_ns = spec_shared_node_storage(storage, redundancy, nodes, block_size);

        let s128 = storage as u128;
        let r128 = redundancy as u128;
        let n128 = nodes as u128;
        let b128 = block_size as u128;

        // Remaining storage numerator over the denominator 100 * nodes.
        let base: u128 = 424 + 32 * n128;
        proof {
            lemma_mul_le(s128 as int, r128 as int, u64::MAX as int, u64::MAX as int);
            lemma_mul_le((base * 100) as int, n128 as int, 0x10000000000000int, 0x100000000int);
        }
        let num: u128 = s128 * r128 - base * 100 * n128;

        // Denominator of the block-count division, scaled by 8 to absorb the
        // 1/8 bitmap cost: total_blocks / 8 = num / (100 * nodes * (8 * block_size + 1)).
        proof {
            lemma_mul_le((100 * n128) as int, (8 * b128 + 1) as int, 0x10000000000int,
                0x1000000000int);
        }
        proof {
            lemma_mul_pos((100 * n128) as int, (8 * b128 + 1) as int);
        }
        let den: u128 = 100 * n128 * (8 * b128 + 1);
        let q: u128 = num / den;
        let rem: u128 = num % den;
        proof {
            vstd::arithmetic::div_mod::lemma_fundamental_div_mod(num as int, den as int);
            lemma_div_mul_le(num as int, den as int);
            lemma_mul_lower(q as int, den as int);
            if q == 0 && rem == 0 {
                assert(num == den * 0 + 0);
                assert(false);
            }
        }
        let tb8: u128 = if rem == 0 {
            q
        } else {
            q + 1
        };
        assert(1 <= tb8);
        let tb: u128 = tb8 * 8;
        proof {
            lemma_mul_div_cancel(tb8 as int, 8);
        }
        assert(tb == g_tb);
        assert(tb / 8 == tb8 as int && g_tb / 8 == tb8 as int);
        proof {
            // The shard size bounds the block count: tb * block_size is part of it.
            assert(g_tb * block_size + spec_shared_base(nodes) + g_tb / 8 <= u64::MAX);
            assert(tb * b128 == g_tb * block_size);
            assert(tb * b128 <= u64::MAX);
            lemma_mul_lower(tb as int, b128 as int);
            assert(tb <= u64::MAX);
        }
        let total_blocks: u64 = tb as u64;
        assert(total_blocks == g_tb);

        // Shard file size, recomputed exactly from the rounded block count.
        let ns128: u128 = base + tb / 8 + tb * b128;
        assert(ns128 == g_ns);
        let node_storage: u64 = ns128 as u64;

        // Client block size: floor((block_size - 92) * nodes / (redundancy / 100)).
        proof {
            lemma_mul_le((b128 - 92) as int, n128 as int, 0xFFFFFFFFint, 0xFFFFFFFFint);
            lemma_div_le_div(((b128 - 92) * n128 * 100) as int, 100, r128 as int);
            lemma_mul_div_cancel(((b128 - 92) * n128) as int, 100);
        }
        let cbs128: u128 = (b128 - 92) * n128 * 100 / r128;
        let client_block_size: u64 = cbs128 as u64;

        let nodes_address_size: u64 = 72 + 32 * nodes;
        assert(total_blocks / 8 == tb8 as int);
        let bitmaps_size: u64 = 96 + total_blocks / 8;
        let nodes_address_pointer: u64 = 256;
        let bitmaps_pointer: u64 = nodes_address_pointer + nodes_address_size;
        assert(256 + nodes_address_size + 96 + total_blocks / 8 == spec_shared_base(nodes) + g_tb
            / 8);
        let data_pointer: u64 = bitmaps_pointer + bitmaps_size;
        proof {
            lemma_mul_sub_one(block_size as int, total_blocks as int);
            lemma_mul_comm(block_size as int, total_blocks as int);
            assert(total_blocks * block_size == g_tb * block_size);
            assert(data_pointer == spec_shared_base(nodes) + g_tb / 8);
            assert(data_pointer + block_size * (total_blocks - 1) == g_ns - block_size);
        }
        let inode_pointer: u64 = data_pointer + block_size * (total_blocks - 1);

        let max_content_pointers: u64 = (block_size - 1136) / 16;
        let max_linked_content_pointers: u64 = (block_size - 80) / 16;

        let r = Self {
            magic,
            owner,
            program_id,
            storage,
            redundancy,
            nodes,
            block_size,
            total_blocks,
            client_block_size,
            node_storage,
            nodes_address_pointer,
            bitmaps_pointer,
            data_pointer,
            inode_pointer,
            nodes_address_size,
            bitmaps_size,
            max_content_pointers,
            max_linked_content_pointers,
            signature: [0u8; 64],
        };
        assert(r == Self::spec_new_shared(owner, program_id, storage, redundancy, nodes,
            block_size));
        r
    }

    /// Derives the private layout: the remaining storage is divided by the
    /// block size and rounded up; there is no bitmap and no inode region.
    pub fn new_private(
        magic: FileSystemType,
        owner: Address,
        program_id: Address,
        storage: u64,
        redundancy: u64,
        nodes: u64,
        block_size: u64,
    ) -> (r: Self)
        requires
            spec_params_accepted(storage, redundancy, nodes, block_size),
            spec_private_geometry_fits(storage, redundancy, nodes, block_size),
            magic is Private,
        ensures
            r == Self::spec_new_private(owner, program_id, storage, redundancy, nodes, block_size),
            r.total_blocks == spec_private_total_blocks(storage, redundancy, nodes, block_size),
            r.node_storage == 256 + r.nodes_address_size + r.total_blocks * r.block_size,
            1 <= r.total_blocks,
            r.bitmaps_pointer == 0 && r.inode_pointer == 0 && r.client_block_size == 0,
    {
        let ghost g_tb = spec_private_total_blocks(storage, redundancy, nodes, block_size);
        let ghost g_ns = spec_private_node_storage(storage, redundancy, nodes, block_size);

        let s128 = storage as u128;
        let r128 = redundancy as u128;
        let n128 = nodes as u128;
        let b128 = block_size as u128;

        let base: u128 = 328 + 32 * n128;
        proof {
            lemma_mul_le(s128 as int, r128 as int, u64::MAX as int, u64::MAX as int);
            lemma_mul_le((base * 100) as int, n128 as int, 0x10000000000000int, 0x100000000int);
        }
        let num: u128 = s128 * r128 - base * 100 * n128;
        proof {
            lemma_mul_le((100 * n128) as int, b128 as int, 0x10000000000int, 0x100000000int);
        }
        proof {
            lemma_mul_pos((100 * n128) as int, b128 as int);
        }
        let den: u128 = 100 * n128 * b128;
        let q: u128 = num / den;
        let rem: u128 = num % den;
        proof {
            vstd::arithmetic::div_mod::lemma_fundamental_div_mod(num as int, den as int);
            lemma_div_mul_le(num as int, den as int);
            lemma_mul_lower(q as int, den as int);
            if q == 0 && rem == 0 {
                assert(num == den * 0 + 0);
                assert(false);
            }
        }
        let tb: u128 = if rem == 0 {
            q
        } else {
            q + 1
        };
        assert(1 <= tb);
        assert(tb == g_tb);
        proof {
            assert(g_tb * block_size + spec_private_base(nodes) <= u64::MAX);
            lemma_mul_lower(tb as int, b128 as int);
        }
        let total_blocks: u64 = tb as u64;

        let ns128: u128 = base + tb * b128;
        assert(ns128 == g_ns);
        let node_storage: u64 = ns128 as u64;

        let nodes_address_size: u64 = 72 + 32 * nodes;
        let nodes_address_pointer: u64 = 256;
        let data_pointer: u64 = nodes_address_pointer + nodes_address_size;

        let r = Self {
            magic,
            owner,
            program_id,
            storage,
            redundancy,
            nodes,
            block_size,
            total_blocks,
            client_block_size: 0,
            node_storage,
            nodes_address_pointer,
            bitmaps_pointer: 0,
            data_pointer,
            inode_pointer: 0,
            nodes_address_size,
            bitmaps_size: 0,
            max_content_pointers: 0,
            max_linked_content_pointers: 0,
            signature: [0u8; 64],
        };
        assert(r == Self::spec_new_private(owner, program_id, storage, redundancy, nodes,
            block_size));
        r
    }

    /// Replaces the trailing signature. The signing algorithm itself is not
    /// part of the file system; the envelope lives in the signature module.
    pub fn add_signature(&mut self, signature: Signature)
        ensures
            *final(self) == (SuperBlock { signature, ..*old(self) }),
    {
        self.signature = signature;
    }

    /// Serializes the super block to its exact 256-byte on-disk form.
    pub fn to_bytes(&self) -> (r: Vec<u8>)
        ensures
            r@ == spec_super_to_bytes(self@),
            r@.len() == 256,
    {
        let mut encoded: Vec<u8> = Vec::with_capacity(256);
        push_u64_le(&mut encoded, self.magic.word());
        push_bytes(&mut encoded, self.owner.as_slice());
        push_bytes(&mut encoded, self.program_id.as_slice());
        push_u64_le(&mut encoded, self.storage);
        push_u64_le(&mut encoded, self.redundancy);
        push_u64_le(&mut encoded, self.nodes);
        push_u64_le(&mut encoded, self.block_size);
        push_u64_le(&mut encoded, self.total_blocks);
        push_u64_le(&mut encoded, self.client_block_size);
        push_u64_le(&mut encoded, self.node_storage);
        push_u64_le(&mut encoded, self.nodes_address_pointer);
        push_u64_le(&mut encoded, self.bitmaps_pointer);
        push_u64_le(&mut encoded, self.data_pointer);
        push_u64_le(&mut encoded, self.inode_pointer);
        push_u64_le(&mut encoded, self.nodes_address_size);
        push_u64_le(&mut encoded, self.bitmaps_size);
        push_u64_le(&mut encoded, self.max_content_pointers);
        push_u64_le(&mut encoded, self.max_linked_content_pointers);
        push_bytes(&mut encoded, self.signature.as_slice());
        proof {
            vstd::bytes::lemma_auto_spec_u64_to_from_le_bytes();
            assert(encoded@ =~= spec_super_to_bytes(self@));
        }
        encoded
    }

    /// Parses a super block from its exact 256-byte on-disk form, failing on
    /// a wrong length or an unknown magic word.
    pub fn from_bytes(data: &[u8]) -> (r: Result<Self, RDFSError>)
        ensures
            parses_to(r, spec_super_from_bytes(data@)),
    {
        if data.len() != 256 {
            return Err(RDFSError::InvalidSuperBlockLength);
        }
        let magic = match FileSystemType::from_bytes(slice_subrange(data, 0, 8)) {
            Ok(m) => m,
            Err(e) => {
                return Err(e);
            },
        };
        let owner = read_bytes32_at(data, 8);
        let program_id = read_bytes32_at(data, 40);
        let storage = read_u64_at(data, 72);
        let redundancy = read_u64_at(data, 80);
        let nodes = read_u64_at(data, 88);
        let block_size = read_u64_at(data, 96);
        let total_blocks = read_u64_at(data, 104);
        let client_block_size = read_u64_at(data, 112);
        let node_storage = read_u64_at(data, 120);
        let nodes_address_pointer = read_u64_at(data, 128);
        let bitmaps_pointer = read_u64_at(data, 136);
        let data_pointer = read_u64_at(data, 144);
        let inode_pointer = read_u64_at(data, 152);
        let nodes_address_size = read_u64_at(data, 160);
        let bitmaps_size = read_u64_at(data, 168);
        let max_content_pointers = read_u64_at(data, 176);
        let max_linked_content_pointers = read_u64_at(data, 184);
        let signature = read_bytes64_at(data, 192);
        let r = Self {
            magic,
            owner,
            program_id,
            storage,
            redundancy,
            nodes,
            block_size,
            total_blocks,
            client_block_size,
            node_storage,
            nodes_address_pointer,
            bitmaps_pointer,
            data_pointer,
            inode_pointer,
            nodes_address_size,
            bitmaps_size,
            max_content_pointers,
            max_linked_content_pointers,
            signature,
        };
        proof {
            let s = spec_super_from_bytes(data@);
            assert(s is Ok);
            assert(r@ =~= s->Ok_0);
        }
        Ok(r)
    }
}

/// The mathematical model of a super block: the byte arrays as sequences.
#[verifier::ext_equal]
pub ghost struct SuperBlockV {
    pub magic: FileSystemType,
    pub owner: Seq<u8>,
    pub program_id: Seq<u8>,
    pub storage: u64,
    pub redundancy: u64,
    pub nodes: u64,
    pub block_size: u64,
    pub total_blocks: u64,
    pub client_block_size: u64,
    pub node_storage: u64,
    pub nodes_address_pointer: u64,
    pub bitmaps_pointer: u64,
    pub data_pointer: u64,
    pub inode_pointer: u64,
    pub nodes_address_size: u64,
    pub bitmaps_size: u64,
    pub max_content_pointers: u64,
    pub max_linked_content_pointers: u64,
    pub signature: Seq<u8>,
}

impl View for SuperBlock {
    type V = SuperBlockV;

    open spec fn view(&self) -> SuperBlockV {
        SuperBlockV {
            magic: self.magic,
            owner: self.owner@,
            program_id: self.program_id@,
            storage: self.storage,
            redundancy: self.redundancy,
            nodes: self.nodes,
            block_size: self.block_size,
            total_blocks: self.total_blocks,
            client_block_size: self.client_block_size,
            node_storage: self.node_storage,
            nodes_address_pointer: self.nodes_address_pointer,
            bitmaps_pointer: self.bitmaps_pointer,
            data_pointer: self.data_pointer,
            inode_pointer: self.inode_pointer,
            nodes_address_size: self.nodes_address_size,
            bitmaps_size: self.bitmaps_size,
            max_content_pointers: self.max_content_pointers,
            max_linked_content_pointers: self.max_linked_content_pointers,
            signature: self.signature@,
        }
    }
}

/// A well-formed super block model: the byte runs have their on-disk widths.
pub open spec fn super_block_wf(v: SuperBlockV) -> bool {
    &&& v.owner.len() == 32
    &&& v.program_id.len() == 32
    &&& v.signature.len() == 64
}

/// The exact 256-byte serialization of a super block.
pub open spec fn spec_super_to_bytes(v: SuperBlockV) -> Seq<u8> {
    spec_u64_to_le_bytes(spec_magic_word(v.magic)) + v.owner + v.program_id + spec_u64_to_le_bytes(
        v.storage,
    ) + spec_u64_to_le_bytes(v.redundancy) + spec_u64_to_le_bytes(v.nodes) + spec_u64_to_le_bytes(
        v.block_size,
    ) + spec_u64_to_le_bytes(v.total_blocks) + spec_u64_to_le_bytes(v.client_block_size)
        + spec_u64_to_le_bytes(v.node_storage) + spec_u64_to_le_bytes(v.nodes_address_pointer)
        + spec_u64_to_le_bytes(v.bitmaps_pointer) + spec_u64_to_le_bytes(v.data_pointer)
        + spec_u64_to_le_bytes(v.inode_pointer) + spec_u64_to_le_bytes(v.nodes_address_size)
        + spec_u64_to_le_bytes(v.bitmaps_size) + spec_u64_to_le_bytes(v.max_content_pointers)
        + spec_u64_to_le_bytes(v.max_linked_content_pointers) + v.signature
}

/// Parses the magic word: exactly eight bytes holding one of the two known
/// constants.
pub open spec fn spec_fs_type_from_bytes(data: Seq<u8>) -> Result<FileSystemType, RDFSError> {
    if data.len() != 8 {
        Err(RDFSError::InvalidMagicWord)
    } else {
        let w = spec_u64_from_le_bytes(data);
        if w == FS_MAGIC_SHARED {
            Ok(FileSystemType::Shared)
        } else if w == FS_MAGIC_PRIVATE {
            Ok(FileSystemType::Private)
        } else {
            Err(RDFSError::InvalidMagicWord)
        }
    }
}

/// Parses a super block: the buffer must be exactly 256 bytes and open with
/// a known magic word; every other field is read as stored.
pub open spec fn spec_super_from_bytes(data: Seq<u8>) -> Result<SuperBlockV, RDFSError> {
    if data.len() != 256 {
        Err(RDFSError::InvalidSuperBlockLength)
    } else {
        match spec_fs_type_from_bytes(data.subrange(0, 8)) {
            Err(e) => Err(e),
            Ok(magic) => Ok(
                SuperBlockV {
                    magic,
                    owner: data.subrange(8, 40),
                    program_id: data.subrange(40, 72),
                    storage: le64_at(data, 72),
                    redundancy: le64_at(data, 80),
                    nodes: le64_at(data, 88),
                    block_size: le64_at(data, 96),
                    total_blocks: le64_at(data, 104),
                    client_block_size: le64_at(data, 112),
                    node_storage: le64_at(data, 120),
                    nodes_address_pointer: le64_at(data, 128),
                    bitmaps_pointer: le64_at(data, 136),
                    data_pointer: le64_at(data, 144),
                    inode_pointer: le64_at(data, 152),
                    nodes_address_size: le64_at(data, 160),
                    bitmaps_size: le64_at(data, 168),
                    max_content_pointers: le64_at(data, 176),
                    max_linked_content_pointers: le64_at(data, 184),
                    signature: data.subrange(192, 256),
                },
            ),
        }
    }
}

impl FileSystemType {
    /// The magic word of this variant.
    pub fn word(&self) -> (r: u64)
        ensures
            r == spec_magic_word(*self),
    {
        match self {
            FileSystemType::Shared => FS_MAGIC_SHARED,
            FileSystemType::Private => FS_MAGIC_PRIVATE,
        }
    }

    /// Serializes the magic word as eight little-endian bytes.
    pub fn to_bytes(&self) -> (r: [u8; 8])
        ensures
            r@ == spec_u64_to_le_bytes(spec_magic_word(*self)),
    {
        let v = u64_to_le_bytes(self.word());
        let mut r: [u8; 8] = [0u8; 8];
        let mut i: usize = 0;
        while i < 8
            invariant
                v@.len() == 8,
                v@ == spec_u64_to_le_bytes(spec_magic_word(*self)),
                i <= 8,
                r@.len() == 8,
                forall|j: int| 0 <= j < i ==> r@[j] == v@[j],
            decreases 8 - i,
        {
            r[i] = v[i];
            i = i + 1;
        }
        assert(r@ =~= v@);
        r
    }

    /// Parses a magic word, rejecting any length but eight and any word but
    /// the two known constants.
    pub fn from_bytes(data: &[u8]) -> (r: Result<Self, RDFSError>)
        ensures
            r == spec_fs_type_from_bytes(data@),
    {
        if data.len() != 8 {
            return Err(RDFSError::InvalidMagicWord);
        }
        let w = read_u64_at(data, 0);
        assert(data@.subrange(0, 8) =~= data@);
        if w == FS_MAGIC_SHARED {
            Ok(FileSystemType::Shared)
        } else if w == FS_MAGIC_PRIVATE {
            Ok(FileSystemType::Private)
        } else {
            Err(RDFSError::InvalidMagicWord)
        }
    }
}

/// Serializing a super block and parsing the result gives the block back,
/// for every well-formed super block model.
pub proof fn lemma_super_block_round_trip(v: SuperBlockV)
    requires
        super_block_wf(v),
    ensures
        spec_super_from_bytes(spec_super_to_bytes(v)) == Ok::<SuperBlockV, RDFSError>(v),
{
    vstd::bytes::lemma_auto_spec_u64_to_from_le_bytes();
    let b = spec_super_to_bytes(v);
    assert(b.len() == 256);
    assert(b.subrange(0, 8) =~= spec_u64_to_le_bytes(spec_magic_word(v.magic)));
    assert(spec_magic_word(v.magic) == FS_MAGIC_SHARED || spec_magic_word(v.magic)
        == FS_MAGIC_PRIVATE);
    assert(FS_MAGIC_SHARED != FS_MAGIC_PRIVATE);
    assert(spec_fs_type_from_bytes(b.subrange(0, 8)) == Ok::<FileSystemType, RDFSError>(v.magic));
    assert(b.subrange(8, 40) =~= v.owner);
    assert(b.subrange(40, 72) =~= v.program_id);
    assert(b.subrange(72, 80) =~= spec_u64_to_le_bytes(v.storage));
    assert(b.subrange(80, 88) =~= spec_u64_to_le_bytes(v.redundancy));
    assert(b.subrange(88, 96) =~= spec_u64_to_le_bytes(v.nodes));
    assert(b.subrange(96, 104) =~= spec_u64_to_le_bytes(v.block_size));
    assert(b.subrange(104, 112) =~= spec_u64_to_le_bytes(v.total_blocks));
    assert(b.subrange(112, 120) =~= spec_u64_to_le_bytes(v.client_block_size));
    assert(b.subrange(120, 128) =~= spec_u64_to_le_bytes(v.node_storage));
    assert(b.subrange(128, 136) =~= spec_u64_to_le_bytes(v.nodes_address_pointer));
    assert(b.subrange(136, 144) =~= spec_u64_to_le_bytes(v.bitmaps_pointer));
    assert(b.subrange(144, 152) =~= spec_u64_to_le_bytes(v.data_pointer));
    assert(b.subrange(152, 160) =~= spec_u64_to_le_bytes(v.inode_pointer));
    assert(b.subrange(160, 168) =~= spec_u64_to_le_bytes(v.nodes_address_size));
    assert(b.subrange(168, 176) =~= spec_u64_to_le_bytes(v.bitmaps_size));
    assert(b.subrange(176, 184) =~= spec_u64_to_le_bytes(v.max_content_pointers));
    assert(b.subrange(184, 192) =~= spec_u64_to_le_bytes(v.max_linked_content_pointers));
    assert(b.subrange(192, 256) =~= v.signature);
    assert(spec_super_from_bytes(b)->Ok_0 =~= v);
}

} // verus!
