//! Codec for a length-prefixed, type-tagged, checksum-verified binary record
//! ("chunk"), as used by PNG-style container formats.
//!
//! A chunk carries a 4-byte tag ([`chunk_type::ChunkType`]), an opaque data
//! payload, and a CRC-32 checksum over the tag and the payload.  The codec
//! decodes a raw byte buffer into a validated [`chunk::Chunk`] and serializes
//! it back byte-for-byte.

pub mod chunk;
pub mod chunk_type;
pub mod crc;
pub mod text;
pub mod wire;

pub use chunk::Chunk;
pub use chunk::ChunkError;
pub use chunk_type::ChunkType;
pub use chunk_type::ChunkTypeError;
