//! Structured errors shared by the RDFS parsers and the file-system facade.

use vstd::prelude::*;

verus! {

/// Every failure a parser or the facade can report.
#[derive(Debug, Clone, Copy, PartialEq, Eq, Structural)]
pub enum RDFSError {
    /// Input to the super-block parser is not exactly 256 bytes.
    InvalidSuperBlockLength,
    /// The magic word matches neither drive variant.
    InvalidMagicWord,
    /// Raw buffer size differs from the nodes-address size, or the address
    /// count differs from the drive's node count.
    InvalidAddressBlockLength,
    /// The declared address count is inconsistent with the buffer size.
    InvalidEncodedAddressBlockLength,
    /// Raw buffer size differs from the bitmaps size, or the bit field
    /// disagrees with the drive's block count.
    InvalidBitmapsBlockLength,
    /// The declared bit-field length is inconsistent with the buffer size.
    InvalidEncodedBitmapsBlockLength,
    /// Input to the data-block parser differs from the block size.
    InvalidDataBlockLength,
    /// The declared payload length exceeds the payload capacity.
    InvalidEncodedDataBlockLength,
    /// Input to an inode parser differs from the block size.
    InvalidInodeBlockLength,
    /// The declared content count exceeds the content capacity.
    InvalidEncodedInodeBlockLength,
    /// A bitmap operation was invoked on a private drive.
    NoBitmapsPrivateRDFS,
    /// A block pointer is not a whole number of blocks past the data region.
    InvalidPointerAlignment,
    /// A block pointer lies below the data region.
    PointerOutOfRange,
    /// The wall clock could not be read.
    TimeUnavailable,
}

impl RDFSError {
    /// A short human-readable description of the error.
    pub fn describe(&self) -> &'static str {
        match self {
            RDFSError::InvalidSuperBlockLength => "Invalid super block length",
            RDFSError::InvalidMagicWord => "Invalid magic word",
            RDFSError::InvalidAddressBlockLength => "Input length not equal nodes address size",
            RDFSError::InvalidEncodedAddressBlockLength => {
                "Encoded length not equal nodes address size"
            },
            RDFSError::InvalidBitmapsBlockLength => "Input length not equal bitmaps size",
            RDFSError::InvalidEncodedBitmapsBlockLength => "encoded length not equal bitmaps size",
            RDFSError::InvalidDataBlockLength => "Input length not equal block size",
            RDFSError::InvalidEncodedDataBlockLength => {
                "content length is greater than block size"
            },
            RDFSError::InvalidInodeBlockLength => "Input length not equal block size",
            RDFSError::InvalidEncodedInodeBlockLength => {
                "content length is greater than block size"
            },
            RDFSError::NoBitmapsPrivateRDFS => "No bitmaps in private RDFS",
            RDFSError::InvalidPointerAlignment => "pointer is not aligned to a block boundary",
            RDFSError::PointerOutOfRange => "pointer is less than the actual data pointer",
            RDFSError::TimeUnavailable => "Time went backwards",
        }
    }
}

} // verus!
