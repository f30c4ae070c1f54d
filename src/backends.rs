//! Calls into the LZ4 libraries that the container can use as block codecs.
//! Each call has a name for what it returns: the libraries are deterministic,
//! so the result depends on the arguments alone.
use vstd::prelude::*;

use crate::block::decode_block;
use crate::container::{mode_code, mode_param, CompressionMode, DecoderError, EncoderError};

verus! {

/// An I/O error, as the `lz4` library reports its failures.
#[verifier::external_type_specification]
#[verifier::external_body]
pub struct ExIoError(std::io::Error);

/// The block that the `lz4` C library makes of `data` in the given mode.
pub uninterp spec fn lz4_block_of(data: Seq<u8>, mode: int, param: int) -> Seq<u8>;

/// What the `lz4` C library decodes from `block` when told the size.
pub uninterp spec fn lz4_decoded(block: Seq<u8>, size: i32) -> Seq<u8>;

/// What the `compress` crate decodes from a valid `block`.
pub uninterp spec fn compress_decoded(block: Seq<u8>) -> Seq<u8>;

/// The block that `lz4-compression` makes of `data`.
pub uninterp spec fn lz4_compression_block_of(data: Seq<u8>) -> Seq<u8>;

/// What `lz4-compression` decodes from `block`.
pub uninterp spec fn lz4_compression_decoded(block: Seq<u8>) -> Seq<u8>;

/// The block that `lz4-compress` makes of `data`.
pub uninterp spec fn lz4_compress_block_of(data: Seq<u8>) -> Seq<u8>;

/// What `lz4-compress` decodes from `block`.
pub uninterp spec fn lz4_compress_decoded(block: Seq<u8>) -> Seq<u8>;

/// The block that `lz4_flex` makes of `data`.
pub uninterp spec fn lz4_flex_block_of(data: Seq<u8>) -> Seq<u8>;

/// What `lz4_flex` decodes from a block preceded by its little-endian size.
pub uninterp spec fn lz4_flex_decoded(sized_block: Seq<u8>) -> Seq<u8>;

/// Relies on `lz4::block::compress` without a size prefix: a block of `data`
/// that depends on the data and the mode alone. Its I/O errors are sorted by
/// kind as the library documents them.
#[verifier::external_body]
pub(crate) fn lz4_compress_block(data: &[u8], mode: Option<CompressionMode>) -> (r: Result<
    Vec<u8>,
    EncoderError,
>)
    ensures
        r matches Ok(v) ==> v@ == lz4_block_of(data@, mode_code(mode), mode_param(mode)),
        r matches Err(e) ==> !(e is Unsupported) && !(e is InputTooLarge),
{
    let mode = mode.map(|m| match m {
        CompressionMode::HIGHCOMPRESSION(v) => lz4::block::CompressionMode::HIGHCOMPRESSION(v),
        CompressionMode::FAST(v) => lz4::block::CompressionMode::FAST(v),
        CompressionMode::DEFAULT => lz4::block::CompressionMode::DEFAULT,
    });
    lz4::block::compress(data, mode, false).map_err(|e| match e.kind() {
        std::io::ErrorKind::Other => EncoderError::InternalCLibraryError(e),
        std::io::ErrorKind::InvalidInput => EncoderError::UncompressedDataBufferIsTooLong(e),
        _ => EncoderError::UnknownError(e),
    })
}

/// Relies on `lz4::block::decompress` with the size given: what it decodes
/// depends on the block and the size alone. Its I/O errors are sorted by kind
/// as the library documents them.
#[verifier::external_body]
pub(crate) fn lz4_decompress_block(block: &[u8], size: u32) -> (r: Result<Vec<u8>, DecoderError>)
    ensures
        r matches Ok(v) ==> v@ == lz4_decoded(block@, size as i32),
{
    lz4::block::decompress(block, Some(size as i32)).map_err(|e| match e.kind() {
        std::io::ErrorKind::InvalidData => DecoderError::InternalCLibraryError(e),
        std::io::ErrorKind::InvalidInput => DecoderError::UncompressedDataBufferIsTooShort(
            Some(e),
            Some(size),
        ),
        _ => DecoderError::UnknownIoError(e),
    })
}

/// Relies on `compress::lz4::decode_block`, which indexes its input without
/// checks: it is only handed blocks that decode without error.
#[verifier::external_body]
pub(crate) fn compress_decode_block(block: &[u8]) -> (r: Vec<u8>)
    requires
        decode_block(block@) is Ok,
    ensures
        r@ == compress_decoded(block@),
{
    let mut output = Vec::new();
    compress::lz4::decode_block(block, &mut output);
    output
}

/// Relies on `lz4_compression::compress::compress`: a block of `data`.
#[verifier::external_body]
pub(crate) fn lz4_compression_compress(data: &[u8]) -> (r: Vec<u8>)
    ensures
        r@ == lz4_compression_block_of(data@),
{
    lz4_compression::compress::compress(data)
}

/// Relies on `lz4_compression::decompress::decompress`; its two errors are
/// a block that ends early and an offset out of bounds.
#[verifier::external_body]
pub(crate) fn lz4_compression_decompress(block: &[u8], size: u32) -> (r: Result<
    Vec<u8>,
    DecoderError,
>)
    ensures
        r matches Ok(v) ==> v@ == lz4_compression_decoded(block@),
{
    lz4_compression::decompress::decompress(block).map_err(|e| match e {
        lz4_compression::decompress::Error::UnexpectedEnd => {
            DecoderError::UncompressedDataBufferIsTooShort(None, Some(size))
        },
        lz4_compression::decompress::Error::InvalidDeduplicationOffset => {
            DecoderError::InvalidDeduplicationOffset
        },
    })
}

/// Relies on `lz4_compress::compress`: a block of `data`.
#[verifier::external_body]
pub(crate) fn lz4_compress_compress(data: &[u8]) -> (r: Vec<u8>)
    ensures
        r@ == lz4_compress_block_of(data@),
{
    lz4_compress::compress(data)
}

/// Relies on `lz4_compress::decompress`; its error is kept as text.
#[verifier::external_body]
pub(crate) fn lz4_compress_decompress(block: &[u8]) -> (r: Result<Vec<u8>, DecoderError>)
    ensures
        r matches Ok(v) ==> v@ == lz4_compress_decoded(block@),
{
    lz4_compress::decompress(block).map_err(|e| DecoderError::TextError(e.to_string()))
}

/// Relies on `lz4_flex::compress`: a block of `data`.
#[verifier::external_body]
pub(crate) fn lz4_flex_compress(data: &[u8]) -> (r: Vec<u8>)
    ensures
        r@ == lz4_flex_block_of(data@),
{
    lz4_flex::compress(data)
}

/// Relies on `lz4_flex::decompress_size_prepended`, which reads the size
/// from the first four bytes; an out of bounds offset is told apart from
/// its other errors, which are kept as text.
#[verifier::external_body]
pub(crate) fn lz4_flex_decompress(sized_block: &[u8]) -> (r: Result<Vec<u8>, DecoderError>)
    ensures
        r matches Ok(v) ==> v@ == lz4_flex_decoded(sized_block@),
{
    lz4_flex::decompress_size_prepended(sized_block).map_err(|e| match e {
        lz4_flex::block::DecompressError::OffsetOutOfBounds => {
            DecoderError::InvalidDeduplicationOffset
        },
        _ => DecoderError::TextError(e.to_string()),
    })
}

} // verus!
