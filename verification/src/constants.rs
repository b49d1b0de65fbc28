//! Core constants shared by the RDFS block structures.
//!
//! Sizes are in bytes. The reserved sizes count the fixed header of a block
//! kind together with its trailing 64-byte signature.

use vstd::prelude::*;

verus! {

/// Size of a public key (an address).
pub const PK_SIZE: usize = 32;
/// Size of a secret key.
pub const SK_SIZE: usize = 32;
/// Size of a signature.
pub const SIG_SIZE: usize = 64;

/// Size of the super block on disk: sixteen u64 fields, two keys, one signature.
pub const SB_SIZE: usize = 16 * 8 + 32 + 32 + 64;
/// Reserved bytes of an addresses block: 8-byte length prefix plus signature.
pub const RESERVED_AB: usize = 72;
/// Reserved bytes of a bitmaps block: four u64 fields plus signature.
pub const RESERVED_BB: usize = 96;
/// Reserved bytes of a data block: three u64 fields plus signature.
pub const RESERVED_DB: usize = 88;
/// Reserved bytes of a client data block: RESERVED_DB plus 4 bytes kept for
/// the erasure-code packet index.
pub const RESERVED_CDB: usize = 92;
/// Reserved bytes of an inode block: 1024-byte name, six u64 fields, signature.
pub const RESERVED_IB: usize = 1136;
/// Reserved bytes of a linked inode block: two u64 fields plus signature.
pub const RESERVED_LIB: usize = 80;

/// Size of one content entry of an inode: (pointer, type) or (pointer, blocks).
pub const CONTENT_SIZE: usize = 16;

/// Magic word of a shared drive: the ASCII bytes `RDFS-SHR` as little-endian u64.
pub const FS_MAGIC_SHARED: u64 = 0x5248532D53464452;
/// Magic word of a private drive: the ASCII bytes `RDFS-PRV` as little-endian u64.
pub const FS_MAGIC_PRIVATE: u64 = 0x5652502D53464452;

/// A 32-byte public key identifying an owner, a program or a node.
pub type Address = [u8; 32];
/// A 64-byte signature closing a block.
pub type Signature = [u8; 64];

} // verus!
