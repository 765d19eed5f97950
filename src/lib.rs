//! Encoding and validation of length-prefixed, CRC-protected chunk records
//! with four-letter type tags, as laid out in PNG files.

pub mod checksum;
pub mod chunk;
pub mod chunk_type;
pub mod error;
pub mod text;

pub use chunk::Chunk;
pub use chunk_type::ChunkType;
pub use error::Error;
