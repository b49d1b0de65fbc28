//! The RDFS facade: creating and mounting drives, and the aligned
//! block-level read/write discipline.
//!
//! The facade itself performs no I/O. Creating a drive yields the super
//! block together with the exact region writes that lay out the new shard
//! file; mounting takes the first 256 bytes of a shard file; every read and
//! write accessor validates its pointer and returns the byte range or write
//! offset that the caller is to apply to the file.

use vstd::prelude::*;

verus! {

use crate::addresses_block::{spec_addresses_from_bytes, spec_addresses_to_bytes, AddressesBlock, AddressesBlockV};
use crate::bitmaps_block::{bitmaps_wf, spec_bitmaps_from_bytes, spec_bitmaps_to_bytes, spec_get_bit, BitmapsBlock, BitmapsBlockV};
use crate::codec::{parses_to, zeros};
use crate::constants::Address;
use crate::inode_block::{spec_inode_dir_to_bytes, spec_name_new, ContentName, FileContent, InodeDir, InodeDirV};
use crate::rdfs_errors::RDFSError;
use crate::super_block::{spec_super_from_bytes, spec_super_to_bytes, FileSystemType, SuperBlock};
use crate::utils::{bytes_to_hex, current_time_as_u64, spec_hex_of};
use vstd::string::StringExecFns;

/// One write a caller is to apply to the shard file: these bytes at this
/// absolute offset.
#[derive(Debug, Clone)]
pub struct RegionWrite {
    /// Absolute byte offset in the shard file.
    pub offset: u64,
    /// The bytes to write there.
    pub bytes: Vec<u8>,
}

/// A mounted or freshly created drive: the path of its shard file and its
/// super block.
#[derive(Debug, Clone)]
pub struct RDFS {
    /// Path of the shard file.
    pub path: String,
    /// The drive's super block.
    pub system: SuperBlock,
}

/// The shard file name a drive is created under: the hex of its program id
/// with the drive suffix, inside the given directory.
pub open spec fn spec_drive_path(dir: Seq<char>, program_id: Seq<u8>) -> Seq<char> {
    dir + "/"@ + spec_hex_of(program_id) + ".RDFS"@
}

/// The model of the addresses block a drive is created with: one zero key
/// per node, zero signature.
pub open spec fn spec_initial_addresses(nodes: u64) -> AddressesBlockV {
    AddressesBlockV { addresses: Seq::new(nodes as nat, |i: int| zeros(32)), signature: zeros(64) }
}

/// What the bitmap written at creation looks like: every block free except
/// the last one, which is reserved for the root directory inode. Its
/// modification time is whatever the wall clock gave.
pub open spec fn spec_initial_bitmap_bytes(bytes: Seq<u8>, total_blocks: u64) -> bool {
    exists|bm: BitmapsBlockV|
        {
            &&& bytes == spec_bitmaps_to_bytes(bm)
            &&& bm.total_blocks == total_blocks
            &&& bitmaps_wf(bm)
            &&& forall|j: int| spec_get_bit(bm.bit_field, j) <==> j == total_blocks - 1
            &&& bm.free_blocks == total_blocks - 1
            &&& bm.signature == zeros(64)
        }
}

/// The model of the root directory inode a shared drive is created with.
pub open spec fn spec_root_inode(timestamp: u64, total_blocks: u64) -> InodeDirV {
    InodeDirV {
        name: spec_name_new("./"@),
        created: timestamp,
        modify: timestamp,
        size: 0,
        total_blocks,
        content: Seq::empty(),
        linked: 0,
        signature: zeros(64),
    }
}

/// The layout a successful shared creation hands back: the derived super
/// block, and the four region writes that initialize the shard file.
pub open spec fn spec_shared_create_ok(
    fs: RDFS,
    ws: Seq<RegionWrite>,
    path: Seq<char>,
    owner: Address,
    program_id: Address,
    storage: u64,
    redundancy: u64,
    nodes: u64,
    block_size: u64,
) -> bool {
    let sb = SuperBlock::spec_new_shared(owner, program_id, storage, redundancy, nodes, block_size);
    &&& fs.system == sb
    &&& fs.path@ == spec_drive_path(path, program_id@)
    &&& ws.len() == 4
    &&& ws[0].offset == 0 && ws[0].bytes@ == spec_super_to_bytes(sb@)
    &&& ws[1].offset == sb.nodes_address_pointer && ws[1].bytes@ == spec_addresses_to_bytes(
        spec_initial_addresses(nodes),
    )
    &&& ws[2].offset == sb.bitmaps_pointer && spec_initial_bitmap_bytes(
        ws[2].bytes@,
        sb.total_blocks,
    )
    &&& ws[3].offset == sb.inode_pointer && (exists|ts: u64|
        ws[3].bytes@ == spec_inode_dir_to_bytes(
            spec_root_inode(ts, sb.total_blocks),
            block_size as int,
        ))
}

/// The layout a private creation hands back: the derived super block, and
/// the two region writes that initialize the shard file.
pub open spec fn spec_private_create_ok(
    fs: RDFS,
    ws: Seq<RegionWrite>,
    path: Seq<char>,
    owner: Address,
    program_id: Address,
    storage: u64,
    redundancy: u64,
    nodes: u64,
    block_size: u64,
) -> bool {
    let sb = SuperBlock::spec_new_private(
        owner,
        program_id,
        storage,
        redundancy,
        nodes,
        block_size,
    );
    &&& fs.system == sb
    &&& fs.path@ == spec_drive_path(path, program_id@)
    &&& ws.len() == 2
    &&& ws[0].offset == 0 && ws[0].bytes@ == spec_super_to_bytes(sb@)
    &&& ws[1].offset == sb.nodes_address_pointer && ws[1].bytes@ == spec_addresses_to_bytes(
        spec_initial_addresses(nodes),
    )
}

/// The byte ranges of the blocks of one extent, in order.
pub open spec fn spec_range_blocks(c: FileContent, block_size: u64) -> Seq<(u64, u64)> {
    Seq::new(
        c.blocks as nat,
        |k: int| (((c.pointer + k * block_size) as u64, (c.pointer + (k + 1) * block_size) as u64)),
    )
}

/// The byte ranges of all blocks of a list of extents, flattened in order.
pub open spec fn spec_blocks_plan(ranges: Seq<FileContent>, block_size: u64) -> Seq<(u64, u64)>
    decreases ranges.len(),
{
    if ranges.len() == 0 {
        Seq::empty()
    } else {
        spec_blocks_plan(ranges.drop_last(), block_size) + spec_range_blocks(
            ranges.last(),
            block_size,
        )
    }
}

impl RDFS {
    /// Lays out a new virtual drive of either variant: derives the super
    /// block and hands back the region writes that initialize a shard file
    /// of `node_storage` bytes at the drive path.
    pub fn new(
        path: String,
        magic: FileSystemType,
        owner: Address,
        program_id: Address,
        storage: u64,
        redundancy: u64,
        nodes: u64,
        block_size: u64,
    ) -> (r: Result<(Self, Vec<RegionWrite>), RDFSError>)
        requires
            crate::super_block::spec_params_accepted(storage, redundancy, nodes, block_size),
            magic is Shared ==> crate::super_block::spec_shared_geometry_fits(
                storage,
                redundancy,
                nodes,
                block_size,
            ) && crate::super_block::spec_shared_total_blocks(
                storage,
                redundancy,
                nodes,
                block_size,
            ) <= usize::MAX,
            magic is Private ==> crate::super_block::spec_private_geometry_fits(
                storage,
                redundancy,
                nodes,
                block_size,
            ),
        ensures
            magic is Shared && r is Ok ==> spec_shared_create_ok(
                r->Ok_0.0,
                r->Ok_0.1@,
                path@,
                owner,
                program_id,
                storage,
                redundancy,
                nodes,
                block_size,
            ),
            magic is Private ==> r is Ok && spec_private_create_ok(
                r->Ok_0.0,
                r->Ok_0.1@,
                path@,
                owner,
                program_id,
                storage,
                redundancy,
                nodes,
                block_size,
            ),
    {
        match magic {
            FileSystemType::Shared => Self::new_shared(
                path,
                magic,
                owner,
                program_id,
                storage,
                redundancy,
                nodes,
                block_size,
            ),
            FileSystemType::Private => Self::new_private(
                path,
                magic,
                owner,
                program_id,
                storage,
                redundancy,
                nodes,
                block_size,
            ),
        }
    }

    /// Lays out a new shared drive: super block, zero node addresses, a
    /// bitmap with the last block reserved for the root directory, and the
    /// root directory inode itself. Fails only when the wall clock cannot
    /// supply a creation timestamp.
    pub fn new_shared(
        path: String,
        magic: FileSystemType,
        owner: Address,
        program_id: Address,
        storage: u64,
        redundancy: u64,
        nodes: u64,
        block_size: u64,
    ) -> (r: Result<(Self, Vec<RegionWrite>), RDFSError>)
        requires
            crate::super_block::spec_params_accepted(storage, redundancy, nodes, block_size),
            crate::super_block::spec_shared_geometry_fits(storage, redundancy, nodes, block_size),
            crate::super_block::spec_shared_total_blocks(storage, redundancy, nodes, block_size)
                <= usize::MAX,
            magic is Shared,
        ensures
            r is Ok ==> spec_shared_create_ok(
                r->Ok_0.0,
                r->Ok_0.1@,
                path@,
                owner,
                program_id,
                storage,
                redundancy,
                nodes,
                block_size,
            ),
    {
        let timestamp = match current_time_as_u64() {
            Ok(t) => t,
            Err(e) => {
                return Err(e);
            },
        };
        let super_block = SuperBlock::new_shared(
            magic,
            owner,
            program_id,
            storage,
            redundancy,
            nodes,
            block_size,
        );
        let addresses_block = AddressesBlock::new(zero_addresses(nodes), [0u8; 64]);
        let mut bitmaps_block = BitmapsBlock::new(super_block.total_blocks, timestamp);
        let root_inode = InodeDir::new(
            ContentName::new("./"),
            timestamp,
            0,
            super_block.total_blocks,
            Vec::new(),
            0,
        );
        // Reserve the last block: it holds the root directory inode.
        proof {
            let tb = super_block.total_blocks as int;
            vstd::arithmetic::div_mod::lemma_fundamental_div_mod(tb, 8);
            vstd::arithmetic::div_mod::lemma_fundamental_div_mod_converse_div(
                tb - 1,
                8,
                tb / 8 - 1,
                7,
            );
            assert((tb - 1) / 8 == tb / 8 - 1);
        }
        bitmaps_block.set_bit((super_block.total_blocks - 1) as usize);

        let full_path = drive_path(path, &program_id);
        let mut writes: Vec<RegionWrite> = Vec::new();
        writes.push(RegionWrite { offset: 0, bytes: super_block.to_bytes() });
        writes.push(
            RegionWrite {
                offset: super_block.nodes_address_pointer,
                bytes: addresses_block.to_bytes(),
            },
        );
        writes.push(
            RegionWrite { offset: super_block.bitmaps_pointer, bytes: bitmaps_block.to_bytes() },
        );
        writes.push(
            RegionWrite {
                offset: super_block.inode_pointer,
                bytes: root_inode.to_bytes(super_block.block_size as usize),
            },
        );
        proof {
            assert(addresses_block@.addresses =~= spec_initial_addresses(nodes).addresses);
            assert(addresses_block@ =~= spec_initial_addresses(nodes));
            assert(spec_initial_bitmap_bytes(writes@[2].bytes@, super_block.total_blocks)) by {
                let bm = bitmaps_block@;
                assert(writes@[2].bytes@ == spec_bitmaps_to_bytes(bm));
                assert(forall|j: int|
                    spec_get_bit(bm.bit_field, j) <==> j == super_block.total_blocks - 1);
            }
            assert(root_inode@.content =~= Seq::<crate::inode_block::DirContent>::empty());
            assert(root_inode@ =~= spec_root_inode(timestamp, super_block.total_blocks));
        }
        Ok((Self { path: full_path, system: super_block }, writes))
    }

    /// Lays out a new private drive: super block and zero node addresses,
    /// nothing else.
    pub fn new_private(
        path: String,
        magic: FileSystemType,
        owner: Address,
        program_id: Address,
        storage: u64,
        redundancy: u64,
        nodes: u64,
        block_size: u64,
    ) -> (r: Result<(Self, Vec<RegionWrite>), RDFSError>)
        requires
            crate::super_block::spec_params_accepted(storage, redundancy, nodes, block_size),
            crate::super_block::spec_private_geometry_fits(storage, redundancy, nodes, block_size),
            magic is Private,
        ensures
            r is Ok,
            spec_private_create_ok(
                r->Ok_0.0,
                r->Ok_0.1@,
                path@,
                owner,
                program_id,
                storage,
                redundancy,
                nodes,
                block_size,
            ),
    {
        let super_block = SuperBlock::new_private(
            magic,
            owner,
            program_id,
            storage,
            redundancy,
            nodes,
            block_size,
        );
        let addresses_block = AddressesBlock::new(zero_addresses(nodes), [0u8; 64]);
        let full_path = drive_path(path, &program_id);
        let mut writes: Vec<RegionWrite> = Vec::new();
        writes.push(RegionWrite { offset: 0, bytes: super_block.to_bytes() });
        writes.push(
            RegionWrite {
                offset: super_block.nodes_address_pointer,
                bytes: addresses_block.to_bytes(),
            },
        );
        proof {
            assert(addresses_block@.addresses =~= spec_initial_addresses(nodes).addresses);
            assert(addresses_block@ =~= spec_initial_addresses(nodes));
        }
        Ok((Self { path: full_path, system: super_block }, writes))
    }

    /// Mounts a drive from the first 256 bytes of its shard file.
    pub fn mount_drive(path: String, super_block_bytes: &[u8]) -> (r: Result<Self, RDFSError>)
        ensures
            match spec_super_from_bytes(super_block_bytes@) {
                Ok(v) => r is Ok && r->Ok_0.system@ == v && r->Ok_0.path@ == path@,
                Err(e) => r == Err::<Self, RDFSError>(e),
            },
    {
        match SuperBlock::from_bytes(super_block_bytes) {
            Ok(system) => Ok(Self { path, system }),
            Err(e) => Err(e),
        }
    }

    /// Unmounts the drive. No cleanup is required: the facade holds no file
    /// handle open.
    pub fn unmount_drive(self) -> (r: Result<(), RDFSError>)
        ensures
            r is Ok,
    {
        Ok(())
    }

    /// The serialized super block of the mounted drive.
    pub fn read_super_block(&self) -> (r: Vec<u8>)
        ensures
            r@ == spec_super_to_bytes(self.system@),
    {
        self.system.to_bytes()
    }

    /// The byte range of the node-address block in the shard file.
    pub fn read_nodes_addresses(&self) -> (r: (u64, u64))
        requires
            self.system.nodes_address_pointer + self.system.nodes_address_size <= u64::MAX,
        ensures
            r.0 == self.system.nodes_address_pointer,
            r.1 == self.system.nodes_address_pointer + self.system.nodes_address_size,
    {
        let start = self.system.nodes_address_pointer;
        let end = start + self.system.nodes_address_size;
        (start, end)
    }

    /// The byte range of the bitmap block in the shard file. A private
    /// drive has no bitmap.
    pub fn read_bitmaps(&self) -> (r: Result<(u64, u64), RDFSError>)
        requires
            self.system.magic is Shared ==> self.system.bitmaps_pointer + self.system.bitmaps_size
                <= u64::MAX,
        ensures
            r == match self.system.magic {
                FileSystemType::Shared => Ok::<(u64, u64), RDFSError>(
                    (
                        self.system.bitmaps_pointer,
                        (self.system.bitmaps_pointer + self.system.bitmaps_size) as u64,
                    ),
                ),
                FileSystemType::Private => Err::<(u64, u64), RDFSError>(
                    RDFSError::NoBitmapsPrivateRDFS,
                ),
            },
    {
        match &self.system.magic {
            FileSystemType::Shared => {
                let start = self.system.bitmaps_pointer;
                let end = start + self.system.bitmaps_size;
                Ok((start, end))
            },
            FileSystemType::Private => Err(RDFSError::NoBitmapsPrivateRDFS),
        }
    }

    /// The byte range of the block at `pointer`. The pointer must lie in
    /// the data region and on a block boundary.
    pub fn read_block(&self, pointer: u64) -> (r: Result<(u64, u64), RDFSError>)
        requires
            self.system.block_size >= 1,
            pointer >= self.system.data_pointer && (pointer - self.system.data_pointer) % (
            self.system.block_size as int) == 0 ==> pointer + self.system.block_size <= u64::MAX,
        ensures
            r == (if pointer < self.system.data_pointer {
                Err::<(u64, u64), RDFSError>(RDFSError::PointerOutOfRange)
            } else if (pointer - self.system.data_pointer) % (self.system.block_size as int)
                != 0 {
                Err::<(u64, u64), RDFSError>(RDFSError::InvalidPointerAlignment)
            } else {
                Ok::<(u64, u64), RDFSError>(
                    (pointer, (pointer + self.system.block_size) as u64),
                )
            }),
    {
        if pointer < self.system.data_pointer {
            return Err(RDFSError::PointerOutOfRange);
        }
        if (pointer - self.system.data_pointer) % self.system.block_size != 0 {
            return Err(RDFSError::InvalidPointerAlignment);
        }
        Ok((pointer, pointer + self.system.block_size))
    }

    /// The byte ranges of every block of the given extents, flattened in
    /// extent order: the plan of a streaming multi-block read.
    pub fn read_blocks(&self, ranges: &Vec<FileContent>) -> (r: Vec<(u64, u64)>)
        requires
            forall|i: int|
                0 <= i < ranges@.len() ==> ranges@[i].pointer + ranges@[i].blocks
                    * self.system.block_size <= u64::MAX,
        ensures
            r@ == spec_blocks_plan(ranges@, self.system.block_size),
    {
        let block_size = self.system.block_size;
        let n = ranges.len();
        let mut r: Vec<(u64, u64)> = Vec::new();
        let mut i: usize = 0;
        while i < n
            invariant
                n == ranges@.len(),
                i <= n,
                block_size == self.system.block_size,
                forall|t: int|
                    0 <= t < n ==> ranges@[t].pointer + ranges@[t].blocks * block_size
                        <= u64::MAX,
                r@ == spec_blocks_plan(ranges@.subrange(0, i as int), block_size),
            decreases n - i,
        {
            let c = ranges[i];
            let ghost outer = r@;
            let mut k: u64 = 0;
            while k < c.blocks
                invariant
                    c == ranges@[i as int],
                    i < n == ranges@.len(),
                    c.pointer + c.blocks * block_size <= u64::MAX,
                    k <= c.blocks,
                    r@ == outer + spec_range_blocks(c, block_size).subrange(0, k as int),
                decreases c.blocks - k,
            {
                proof {
                    crate::arith::lemma_mul_le(k as int, block_size as int, c.blocks as int,
                        block_size as int);
                    crate::arith::lemma_mul_le((k + 1) as int, block_size as int, c.blocks as int,
                        block_size as int);
                }
                let start = c.pointer + k * block_size;
                let end = c.pointer + (k + 1) * block_size;
                r.push((start, end));
                proof {
                    assert(r@ =~= outer + spec_range_blocks(c, block_size).subrange(
                        0,
                        k + 1 as int,
                    ));
                }
                k = k + 1;
            }
            proof {
                assert(spec_range_blocks(c, block_size).subrange(0, c.blocks as int)
                    =~= spec_range_blocks(c, block_size));
                assert(ranges@.subrange(0, i + 1).drop_last() =~= ranges@.subrange(0, i as int));
                assert(r@ =~= spec_blocks_plan(ranges@.subrange(0, i + 1), block_size));
            }
            i = i + 1;
        }
        proof {
            assert(ranges@.subrange(0, n as int) =~= ranges@);
        }
        r
    }

    /// Validates an addresses-block image against this drive and gives the
    /// offset to write it at: it must parse, and hold exactly one key per
    /// node.
    pub fn write_nodes_addresses(&self, data: &[u8]) -> (r: Result<u64, RDFSError>)
        requires
            self.system.nodes_address_size <= usize::MAX,
        ensures
            r == match spec_addresses_from_bytes(data@, self.system.nodes_address_size as int) {
                Err(e) => Err::<u64, RDFSError>(e),
                Ok(v) => if v.addresses.len() != self.system.nodes {
                    Err::<u64, RDFSError>(RDFSError::InvalidAddressBlockLength)
                } else {
                    Ok::<u64, RDFSError>(self.system.nodes_address_pointer)
                },
            },
    {
        let address = match AddressesBlock::from_bytes(
            data,
            self.system.nodes_address_size as usize,
        ) {
            Ok(a) => a,
            Err(e) => {
                return Err(e);
            },
        };
        if address.addresses.len() as u64 != self.system.nodes {
            return Err(RDFSError::InvalidAddressBlockLength);
        }
        Ok(self.system.nodes_address_pointer)
    }

    /// Validates a bitmap image against this drive and gives the offset to
    /// write it at: the drive must be shared, the image must parse, and its
    /// block count and bit-field width must match the drive.
    pub fn write_bitmaps(&self, data: &[u8]) -> (r: Result<u64, RDFSError>)
        requires
            self.system.bitmaps_size <= usize::MAX,
        ensures
            r == (if !(self.system.magic is Shared) {
                Err::<u64, RDFSError>(RDFSError::NoBitmapsPrivateRDFS)
            } else {
                match spec_bitmaps_from_bytes(data@, self.system.bitmaps_size as int) {
                    Err(e) => Err::<u64, RDFSError>(e),
                    Ok(v) => if v.total_blocks != self.system.total_blocks || v.bit_field.len() * 8
                        != self.system.total_blocks {
                        Err::<u64, RDFSError>(RDFSError::InvalidBitmapsBlockLength)
                    } else {
                        Ok::<u64, RDFSError>(self.system.bitmaps_pointer)
                    },
                }
            }),
    {
        match self.system.magic {
            FileSystemType::Shared => {
                let bitmaps = match BitmapsBlock::from_bytes(
                    data,
                    self.system.bitmaps_size as usize,
                ) {
                    Ok(b) => b,
                    Err(e) => {
                        return Err(e);
                    },
                };
                let width: u128 = (bitmaps.bit_field.len() as u128) * 8;
                if bitmaps.total_blocks != self.system.total_blocks || width
                    != self.system.total_blocks as u128 {
                    return Err(RDFSError::InvalidBitmapsBlockLength);
                }
                Ok(self.system.bitmaps_pointer)
            },
            FileSystemType::Private => Err(RDFSError::NoBitmapsPrivateRDFS),
        }
    }

    /// Validates a block write: the pointer must lie in the data region and
    /// on a block boundary, and the image must be exactly one block. Gives
    /// the offset to write at.
    pub fn write_block(&self, pointer: u64, data: &[u8]) -> (r: Result<u64, RDFSError>)
        requires
            self.system.block_size >= 1,
            data@.len() == self.system.block_size,
        ensures
            r == (if pointer < self.system.data_pointer {
                Err::<u64, RDFSError>(RDFSError::PointerOutOfRange)
            } else if (pointer - self.system.data_pointer) % (self.system.block_size as int)
                != 0 {
                Err::<u64, RDFSError>(RDFSError::InvalidPointerAlignment)
            } else {
                Ok::<u64, RDFSError>(pointer)
            }),
    {
        if pointer < self.system.data_pointer {
            return Err(RDFSError::PointerOutOfRange);
        }
        if (pointer - self.system.data_pointer) % self.system.block_size != 0 {
            return Err(RDFSError::InvalidPointerAlignment);
        }
        Ok(pointer)
    }
}

/// One zero key per node.
fn zero_addresses(nodes: u64) -> (r: Vec<Address>)
    requires
        nodes <= u32::MAX,
    ensures
        r@.len() == nodes,
        forall|i: int| 0 <= i < nodes ==> r@[i]@ == zeros(32),
{
    let n = nodes as usize;
    let mut r: Vec<Address> = Vec::new();
    let mut i: usize = 0;
    while i < n
        invariant
            n == nodes,
            i <= n,
            r@.len() == i,
            forall|k: int| 0 <= k < i ==> r@[k]@ == zeros(32),
        decreases n - i,
    {
        let a: Address = [0u8; 32];
        proof {
            assert(a@ =~= zeros(32));
        }
        r.push(a);
        i = i + 1;
    }
    r
}

/// Joins the drive directory with the hex-named shard file.
fn drive_path(dir: String, program_id: &Address) -> (r: String)
    ensures
        r@ == spec_drive_path(dir@, program_id@),
{
    let mut r = dir;
    r.append("/");
    let hex = bytes_to_hex(program_id.as_slice());
    r.append(hex.as_str());
    r.append(".RDFS");
    r
}

} // verus!
