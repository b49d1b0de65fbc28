//! RDFS: a virtual distributed file system persisted as a byte-exact image
//! replicated across nodes.
//!
//! This crate holds the on-disk format of an RDFS drive together with its
//! addressing and validity rules: the geometry that derives every offset and
//! capacity from the drive parameters, the bit-exact serialization of each
//! block kind, the block-level read/write discipline, and the signature
//! envelope that every block carries.

pub mod addresses_block;
pub mod arith;
pub mod bitmaps_block;
pub mod block_signature;
pub mod codec;
pub mod config;
pub mod constants;
pub mod data_block;
pub mod file_system;
pub mod inode_block;
pub mod rdfs_errors;
pub mod super_block;
pub mod utils;
