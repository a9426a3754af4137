//! Parsing of the Luxology (Modo) IFF-style scene formats: `.lxo`, `.lxp`, `.lxe`, `.lxl`.
//!
//! Every parser works on an in-memory byte buffer and an absolute position inside it,
//! and is specified by a grammar function over `Seq<u8>` in the same module.

pub mod animation;
pub mod geometry;
pub mod item;
pub mod media;
pub mod meta;
pub mod primitives;
pub mod properties;
pub mod scene;
pub mod tags;
pub mod utils;

pub use primitives::{ChunkHeader, ID4};
pub use scene::{Extension, Header, LuxologyFile};

use vstd::prelude::*;

verus! {

/// Errors that parsing can produce.
#[derive(Debug, Clone, PartialEq, Eq)]
pub enum ParseError {
    /// IFF files must start with FORM
    InvalidMagicNumber,
    /// ID4 must be 4 printable ASCII characters
    InvalidID4,
    /// File size does not match reported size in header
    SizeMismatch,
    /// Invalid size for fixed size chunk data
    InvalidSize,
    /// Chunk has odd size, data must be padded to even bytes
    OddChunkSize { kind: primitives::ID4, size: u32 },
    /// Chunk consumed a different number of bytes than its header announced
    ChunkBoundaryMismatch { kind: primitives::ID4, expected: u32, consumed: u64 },
    /// File type not supported
    NonSupportedExtension,
    /// Buffer is too short for the data to be parsed
    BufferTooShort,
    /// Strings must be null terminated
    MissingNullTerminator,
    /// Bytes must be aligned to even number
    UnalignedBytes,
    /// Invalid Channel Data Mask
    InvalidChannelDataMask,
    /// Non supported Channel Vector data type
    ChannelVectorArray,
    /// Missing LAYR
    MissingLayer,
    /// Missing PNTS
    MissingPoints,
    /// No previous parsed POLS chunk
    MissingPolygonsList,
    /// Missing Trisurface Group Header 3GRP
    MissingTriSurfGroupHeader,
    /// Missing Trisurface Data Header 3SRF
    MissingTriSurfDataHeader,
    /// The data ended before the value being read was complete
    UnexpectedEof,
    /// A fixed magic tag did not match
    BadMagic,
    /// An enumeration field held a value that names no variant
    NoVariantMatch,
    /// A channel value type flag that names no known value kind
    InvalidItemFlag { flag: u16 },
    /// A size constraint of a chunk was not met
    AssertionFailed,
    /// Data to be written is longer than its length field can state
    LengthOverflow,
}

} // verus!
