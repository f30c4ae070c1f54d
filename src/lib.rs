//! Compression and decompression of the `mozLz4` container that Firefox uses
//! for its user data (session store backups, bookmarks and the like): an
//! eight byte magic header, the uncompressed size as a little-endian `u32`,
//! and one raw LZ4 block.
mod backends;
pub mod block;
pub mod container;
pub mod group_tab;
pub mod json_text;
pub mod json_value;
pub mod link_format;
pub mod options;
pub mod output_format;
pub mod print;
pub mod statistics;
pub mod theorems;
pub mod type_script;

pub use container::{
    decompress, CompressionLibrary, CompressionMode, DecoderError, Encoder, EncoderError,
    SupportedCompressionLibrary, HEADER_LENGTH, MAGIC_HEADER, MAGIC_HEADER_LENGTH,
};
