//! The `mozLz4` container: the magic bytes `mozLz40\0`, the uncompressed size
//! as a little-endian `u32`, and one raw LZ4 block made by one of several
//! block codecs.
use vstd::prelude::*;

use crate::backends::{
    compress_decode_block, compress_decoded, lz4_block_of, lz4_compress_block,
    lz4_compress_block_of, lz4_compress_compress, lz4_compress_decoded, lz4_compress_decompress,
    lz4_compression_block_of, lz4_compression_compress, lz4_compression_decoded,
    lz4_compression_decompress, lz4_decoded, lz4_decompress_block, lz4_flex_block_of,
    lz4_flex_compress, lz4_flex_decoded, lz4_flex_decompress,
};
use crate::block::{decode_block, BlockError, MAX_COMPRESSION_INPUT_SIZE};

verus! {

/// The bytes that every container starts with.
pub const MAGIC_HEADER: [u8; 8] = [0x6D, 0x6F, 0x7A, 0x4C, 0x7A, 0x34, 0x30, 0x00];

pub const MAGIC_HEADER_LENGTH: usize = 8;

/// The magic bytes and the uncompressed size.
pub const HEADER_LENGTH: usize = 12;

pub open spec fn magic() -> Seq<u8> {
    seq![0x6Du8, 0x6Fu8, 0x7Au8, 0x4Cu8, 0x7Au8, 0x34u8, 0x30u8, 0x00u8]
}

/// The four little-endian bytes of `n`.
pub open spec fn le32(n: u32) -> Seq<u8> {
    seq![
        (n % 256) as u8,
        ((n / 256) % 256) as u8,
        ((n / 65536) % 256) as u8,
        (n / 16777216) as u8,
    ]
}

/// The number that the four little-endian bytes at `i` hold.
pub open spec fn le32_at(c: Seq<u8>, i: int) -> int {
    c[i] as int + 256 * (c[i + 1] as int) + 65536 * (c[i + 2] as int) + 16777216 * (c[i
        + 3] as int)
}

/// The header of a container whose plaintext has `n` bytes.
pub open spec fn container_header(n: u32) -> Seq<u8> {
    magic() + le32(n)
}

/// The block that a container holds after its header.
pub open spec fn payload(c: Seq<u8>) -> Seq<u8> {
    c.subrange(HEADER_LENGTH as int, c.len() as int)
}

/// Why a container could not be decoded, as far as the block format tells.
#[derive(Debug, Clone, Copy, PartialEq, Eq, Structural)]
pub enum ContainerFault {
    /// Too short to hold the header.
    TooShort,
    /// The magic bytes are wrong.
    BadHeader,
    /// The block is malformed.
    Block(BlockError),
    /// The block decodes to another number of bytes than the header says.
    SizeMismatch,
    /// A block codec of an outside library failed.
    Backend,
}

/// Compares what a block decoded to with the size that the header declares.
pub open spec fn size_checked(c: Seq<u8>, s: Seq<u8>) -> Result<Seq<u8>, ContainerFault> {
    if s.len() == le32_at(c, MAGIC_HEADER_LENGTH as int) {
        Ok(s)
    } else {
        Err(ContainerFault::SizeMismatch)
    }
}

/// What decoding the container `c` gives.
pub open spec fn decode_container(c: Seq<u8>) -> Result<Seq<u8>, ContainerFault> {
    if c.len() < HEADER_LENGTH {
        Err(ContainerFault::TooShort)
    } else if c.subrange(0, MAGIC_HEADER_LENGTH as int) != magic() {
        Err(ContainerFault::BadHeader)
    } else {
        match decode_block(payload(c)) {
            Err(e) => Err(ContainerFault::Block(e)),
            Ok(s) => size_checked(c, s),
        }
    }
}

/// The compression mode to be used.
#[derive(Debug, Default, Clone, Copy, PartialEq, Eq, Structural)]
pub enum CompressionMode {
    /// High compression with compression parameter
    HIGHCOMPRESSION(i32),
    /// Fast compression with acceleration parameter
    FAST(i32),
    /// Default compression
    #[default]
    DEFAULT,
}

/// Which kind of compression a mode asks for: 0 for the default, 1 for high
/// compression, 2 for fast compression.
pub open spec fn mode_code(mode: Option<CompressionMode>) -> int {
    match mode {
        Some(CompressionMode::HIGHCOMPRESSION(_)) => 1,
        Some(CompressionMode::FAST(_)) => 2,
        _ => 0,
    }
}

/// The parameter of a mode, 0 where it has none.
pub open spec fn mode_param(mode: Option<CompressionMode>) -> int {
    match mode {
        Some(CompressionMode::HIGHCOMPRESSION(v)) => v as int,
        Some(CompressionMode::FAST(v)) => v as int,
        _ => 0,
    }
}

/// A library that can serve as the block codec.
#[derive(Debug, Clone, Copy, PartialEq, Eq, Structural)]
pub enum CompressionLibrary {
    /// The `lz4` crate with bindings to the C library.
    Lz4,
    /// The pure Rust implementation of the `compress` crate.
    Compress,
    /// The pure Rust implementation of the `lz4-compression` crate.
    Lz4Compression,
    /// The pure Rust implementation of the `lz4-compress` crate.
    Lz4Compress,
    /// The pure Rust implementation of the `lz4_flex` crate.
    Lz4Flex,
    /// The block decoder of this crate, which follows the one of `node-lz4`.
    PortedNodeLz4,
}

/// A library that this build can use as the block codec.
#[derive(Debug, Clone, Copy, PartialEq, Eq, Structural)]
pub enum SupportedCompressionLibrary {
    Lz4,
    Compress,
    Lz4Compression,
    Lz4Compress,
    Lz4Flex,
    PortedNodeLz4,
}

/// The supported library that stands for `lib`.
pub open spec fn supported_of(lib: CompressionLibrary) -> SupportedCompressionLibrary {
    match lib {
        CompressionLibrary::Lz4 => SupportedCompressionLibrary::Lz4,
        CompressionLibrary::Compress => SupportedCompressionLibrary::Compress,
        CompressionLibrary::Lz4Compression => SupportedCompressionLibrary::Lz4Compression,
        CompressionLibrary::Lz4Compress => SupportedCompressionLibrary::Lz4Compress,
        CompressionLibrary::Lz4Flex => SupportedCompressionLibrary::Lz4Flex,
        CompressionLibrary::PortedNodeLz4 => SupportedCompressionLibrary::PortedNodeLz4,
    }
}

/// The library that the supported library `lib` stands for.
pub open spec fn library_of(lib: SupportedCompressionLibrary) -> CompressionLibrary {
    match lib {
        SupportedCompressionLibrary::Lz4 => CompressionLibrary::Lz4,
        SupportedCompressionLibrary::Compress => CompressionLibrary::Compress,
        SupportedCompressionLibrary::Lz4Compression => CompressionLibrary::Lz4Compression,
        SupportedCompressionLibrary::Lz4Compress => CompressionLibrary::Lz4Compress,
        SupportedCompressionLibrary::Lz4Flex => CompressionLibrary::Lz4Flex,
        SupportedCompressionLibrary::PortedNodeLz4 => CompressionLibrary::PortedNodeLz4,
    }
}

impl CompressionLibrary {
    pub fn is_supported(self) -> (r: bool)
        ensures
            r == true,
    {
        self.try_into_supported().is_some()
    }

    pub fn try_into_supported(self) -> (r: Option<SupportedCompressionLibrary>)
        ensures
            r == Some(supported_of(self)),
    {
        SupportedCompressionLibrary::try_from_compression_lib(self)
    }

    /// `true` for a library whose compression panics rather than returning an
    /// error; the encoder declines to compress with it.
    pub fn panic_on_compress(self) -> (r: bool)
        ensures
            r == (self == CompressionLibrary::Compress || self
                == CompressionLibrary::PortedNodeLz4),
    {
        match self {
            CompressionLibrary::Lz4 => false,
            CompressionLibrary::Compress => true,
            CompressionLibrary::Lz4Compression => false,
            CompressionLibrary::Lz4Compress => false,
            CompressionLibrary::Lz4Flex => false,
            CompressionLibrary::PortedNodeLz4 => true,
        }
    }

    /// `true` for a library whose blocks are byte for byte those that
    /// Firefox writes.
    pub fn same_as_firefox_compression(self) -> (r: bool)
        ensures
            r == (self == CompressionLibrary::Lz4),
    {
        match self {
            CompressionLibrary::Lz4 => true,
            CompressionLibrary::Compress => false,
            CompressionLibrary::Lz4Compression => false,
            CompressionLibrary::Lz4Compress => false,
            CompressionLibrary::Lz4Flex => false,
            CompressionLibrary::PortedNodeLz4 => false,
        }
    }

    /// Every library, once each.
    pub fn get_all() -> (r: Vec<CompressionLibrary>)
        ensures
            r@ == seq![
                CompressionLibrary::Lz4,
                CompressionLibrary::Compress,
                CompressionLibrary::Lz4Compression,
                CompressionLibrary::Lz4Compress,
                CompressionLibrary::Lz4Flex,
                CompressionLibrary::PortedNodeLz4,
            ],
    {
        let r = vec![
            CompressionLibrary::Lz4,
            CompressionLibrary::Compress,
            CompressionLibrary::Lz4Compression,
            CompressionLibrary::Lz4Compress,
            CompressionLibrary::Lz4Flex,
            CompressionLibrary::PortedNodeLz4,
        ];
        assert(r@ =~= seq![
            CompressionLibrary::Lz4,
            CompressionLibrary::Compress,
            CompressionLibrary::Lz4Compression,
            CompressionLibrary::Lz4Compress,
            CompressionLibrary::Lz4Flex,
            CompressionLibrary::PortedNodeLz4,
        ]);
        r
    }
}

impl SupportedCompressionLibrary {
    pub fn try_from_compression_lib(lib: CompressionLibrary) -> (r: Option<Self>)
        ensures
            r == Some(supported_of(lib)),
    {
        match lib {
            CompressionLibrary::Lz4 => Some(SupportedCompressionLibrary::Lz4),
            CompressionLibrary::Compress => Some(SupportedCompressionLibrary::Compress),
            CompressionLibrary::Lz4Compression => Some(SupportedCompressionLibrary::Lz4Compression),
            CompressionLibrary::Lz4Compress => Some(SupportedCompressionLibrary::Lz4Compress),
            CompressionLibrary::Lz4Flex => Some(SupportedCompressionLibrary::Lz4Flex),
            CompressionLibrary::PortedNodeLz4 => Some(SupportedCompressionLibrary::PortedNodeLz4),
        }
    }

    pub fn to_compression_lib(self) -> (r: CompressionLibrary)
        ensures
            r == library_of(self),
            supported_of(r) == self,
    {
        match self {
            SupportedCompressionLibrary::Lz4 => CompressionLibrary::Lz4,
            SupportedCompressionLibrary::Compress => CompressionLibrary::Compress,
            SupportedCompressionLibrary::Lz4Compression => CompressionLibrary::Lz4Compression,
            SupportedCompressionLibrary::Lz4Compress => CompressionLibrary::Lz4Compress,
            SupportedCompressionLibrary::Lz4Flex => CompressionLibrary::Lz4Flex,
            SupportedCompressionLibrary::PortedNodeLz4 => CompressionLibrary::PortedNodeLz4,
        }
    }
}

impl From<SupportedCompressionLibrary> for CompressionLibrary {
    fn from(value: SupportedCompressionLibrary) -> (r: Self)
        ensures
            r == library_of(value),
    {
        value.to_compression_lib()
    }
}

impl vstd::std_specs::convert::FromSpecImpl<SupportedCompressionLibrary> for CompressionLibrary {
    open spec fn obeys_from_spec() -> bool {
        true
    }

    open spec fn from_spec(v: SupportedCompressionLibrary) -> Self {
        library_of(v)
    }
}

/// Why data could not be compressed.
#[derive(Debug)]
pub enum EncoderError {
    /// The C library found the data too long.
    UncompressedDataBufferIsTooLong(std::io::Error),
    /// The C library failed.
    InternalCLibraryError(std::io::Error),
    /// The C library failed in another way.
    UnknownError(std::io::Error),
    /// The data is longer than `MAX_COMPRESSION_INPUT_SIZE` bytes, or the
    /// container made of it would not fit in memory; it has this many.
    InputTooLarge(usize),
    /// The library cannot compress.
    Unsupported(CompressionLibrary),
}

/// The length of the block that `library` makes of `data`, where that is
/// determined by the data alone.
pub open spec fn compressed_len(data: Seq<u8>, library: SupportedCompressionLibrary) -> int {
    match library {
        SupportedCompressionLibrary::Lz4Compression => lz4_compression_block_of(data).len() as int,
        SupportedCompressionLibrary::Lz4Compress => lz4_compress_block_of(data).len() as int,
        SupportedCompressionLibrary::Lz4Flex => lz4_flex_block_of(data).len() as int,
        _ => 0,
    }
}

/// Compressed data together with the header that goes before it. It hands
/// out header and block in turn, in chunks of the caller's size.
pub struct Encoder {
    compressed_data: Vec<u8>,
    uncompressed_size: usize,
    index: usize,
}

impl Encoder {
    /// The compressed block.
    pub closed spec fn data(&self) -> Seq<u8> {
        self.compressed_data@
    }

    /// The number of bytes that were compressed.
    pub closed spec fn size(&self) -> nat {
        self.uncompressed_size as nat
    }

    /// How many bytes of the container have been handed out.
    pub closed spec fn position(&self) -> nat {
        self.index as nat
    }

    /// The header that goes before the block.
    pub open spec fn header_bytes(&self) -> Seq<u8> {
        container_header(self.size() as u32)
    }

    /// The whole container: header, then block.
    pub open spec fn stream(&self) -> Seq<u8> {
        self.header_bytes() + self.data()
    }

    pub open spec fn wf(&self) -> bool {
        &&& self.size() <= MAX_COMPRESSION_INPUT_SIZE
        &&& self.position() <= self.stream().len()
        &&& self.stream().len() <= usize::MAX
    }

    /// Compresses `uncompressed_data` with `library`. Data longer than
    /// `MAX_COMPRESSION_INPUT_SIZE` is refused, and so is a library that
    /// cannot compress.
    pub fn compress(
        uncompressed_data: &[u8],
        mode: Option<CompressionMode>,
        library: SupportedCompressionLibrary,
    ) -> (r: Result<Self, EncoderError>)
        ensures
            uncompressed_data@.len() > MAX_COMPRESSION_INPUT_SIZE ==> (r matches Err(
                EncoderError::InputTooLarge(n),
            ) && n == uncompressed_data@.len()),
            uncompressed_data@.len() <= MAX_COMPRESSION_INPUT_SIZE && (library
                == SupportedCompressionLibrary::Compress || library
                == SupportedCompressionLibrary::PortedNodeLz4) ==> (r matches Err(
                EncoderError::Unsupported(l),
            ) && l == library_of(library)),
            uncompressed_data@.len() <= MAX_COMPRESSION_INPUT_SIZE && (library
                == SupportedCompressionLibrary::Lz4Compression || library
                == SupportedCompressionLibrary::Lz4Compress || library
                == SupportedCompressionLibrary::Lz4Flex) && HEADER_LENGTH + compressed_len(
                uncompressed_data@,
                library,
            ) <= usize::MAX ==> r is Ok,
            uncompressed_data@.len() <= MAX_COMPRESSION_INPUT_SIZE && HEADER_LENGTH
                + compressed_len(uncompressed_data@, library) > usize::MAX ==> (r matches Err(
                EncoderError::InputTooLarge(n),
            ) && n == uncompressed_data@.len()) || (library == SupportedCompressionLibrary::Lz4
                && r is Err),
            r matches Err(e) ==> (!(e is Unsupported) || (e matches EncoderError::Unsupported(l)
                && l == library_of(library))),
            r matches Ok(e) ==> {
                &&& e.wf()
                &&& e.size() == uncompressed_data@.len()
                &&& e.position() == 0
                &&& e.header_bytes() == container_header(uncompressed_data@.len() as u32)
                &&& e.stream().subrange(0, HEADER_LENGTH as int) == container_header(
                    uncompressed_data@.len() as u32,
                )
                &&& library == SupportedCompressionLibrary::Lz4 ==> e.data() == lz4_block_of(
                    uncompressed_data@,
                    mode_code(mode),
                    mode_param(mode),
                )
                &&& library == SupportedCompressionLibrary::Lz4Compression ==> e.data()
                    == lz4_compression_block_of(uncompressed_data@)
                &&& library == SupportedCompressionLibrary::Lz4Compress ==> e.data()
                    == lz4_compress_block_of(uncompressed_data@)
                &&& library == SupportedCompressionLibrary::Lz4Flex ==> e.data()
                    == lz4_flex_block_of(uncompressed_data@)
            },
    {
        if uncompressed_data.len() > MAX_COMPRESSION_INPUT_SIZE as usize {
            return Err(EncoderError::InputTooLarge(uncompressed_data.len()));
        }
        let compressed_data = match library {
            SupportedCompressionLibrary::Lz4 => match lz4_compress_block(uncompressed_data, mode) {
                Ok(v) => v,
                Err(e) => return Err(e),
            },
            SupportedCompressionLibrary::Compress => {
                return Err(EncoderError::Unsupported(CompressionLibrary::Compress));
            },
            SupportedCompressionLibrary::Lz4Compression => lz4_compression_compress(
                uncompressed_data,
            ),
            SupportedCompressionLibrary::Lz4Compress => lz4_compress_compress(uncompressed_data),
            SupportedCompressionLibrary::Lz4Flex => lz4_flex_compress(uncompressed_data),
            SupportedCompressionLibrary::PortedNodeLz4 => {
                return Err(EncoderError::Unsupported(CompressionLibrary::PortedNodeLz4));
            },
        };
        if compressed_data.len() > usize::MAX - HEADER_LENGTH {
            return Err(EncoderError::InputTooLarge(uncompressed_data.len()));
        }
        let e = Encoder { compressed_data, uncompressed_size: uncompressed_data.len(), index: 0 };
        assert(e.stream().subrange(0, HEADER_LENGTH as int) =~= e.header_bytes());
        Ok(e)
    }

    /// The header that this encoder writes before the block.
    pub fn get_header(&self) -> (r: [u8; HEADER_LENGTH])
        requires
            self.wf(),
        ensures
            r@ == self.header_bytes(),
    {
        let n = self.uncompressed_size as u32;
        let r: [u8; HEADER_LENGTH] = [
            MAGIC_HEADER[0],
            MAGIC_HEADER[1],
            MAGIC_HEADER[2],
            MAGIC_HEADER[3],
            MAGIC_HEADER[4],
            MAGIC_HEADER[5],
            MAGIC_HEADER[6],
            MAGIC_HEADER[7],
            (n % 256) as u8,
            ((n / 256) % 256) as u8,
            ((n / 65536) % 256) as u8,
            (n / 16777216) as u8,
        ];
        assert(r@ =~= self.header_bytes());
        r
    }

    /// The compressed block, without the header that goes before it.
    pub fn get_vec_without_header(self) -> (r: Vec<u8>)
        ensures
            r@ == self.data(),
    {
        self.compressed_data
    }

    /// Copies the next bytes of the container into `buf`, as many as fit and
    /// are left, and returns how many were copied.
    pub fn read(&mut self, buf: &mut [u8]) -> (n: usize)
        requires
            old(self).wf(),
        ensures
            final(self).wf(),
            final(self).data() == old(self).data(),
            final(self).size() == old(self).size(),
            n == if old(buf)@.len() < old(self).stream().len() - old(self).position() {
                old(buf)@.len() as int
            } else {
                old(self).stream().len() - old(self).position()
            },
            final(self).position() == old(self).position() + n,
            final(buf)@.len() == old(buf)@.len(),
            final(buf)@.subrange(0, n as int) == old(self).stream().subrange(
                old(self).position() as int,
                old(self).position() + n,
            ),
            final(buf)@.subrange(n as int, old(buf)@.len() as int) == old(buf)@.subrange(
                n as int,
                old(buf)@.len() as int,
            ),
    {
        let header = self.get_header();
        let ghost s = self.stream();
        let ghost start = self.index as int;
        let total = HEADER_LENGTH + self.compressed_data.len();
        assert(s.len() == total);
        let left = total - self.index;
        let n = if buf.len() < left {
            buf.len()
        } else {
            left
        };
        let mut k: usize = 0;
        while k < n
            invariant
                k <= n,
                n <= buf@.len(),
                start + n <= s.len(),
                s.len() <= usize::MAX,
                start == self.index,
                s == self.stream(),
                header@ == self.header_bytes(),
                self.compressed_data@.len() + HEADER_LENGTH == s.len(),
                buf@.len() == old(buf)@.len(),
                forall|m: int| 0 <= m < k ==> buf@[m] == s[start + m],
                forall|m: int| n <= m < buf@.len() ==> buf@[m] == old(buf)@[m],
            decreases n - k,
        {
            let at = self.index + k;
            let byte = if at < HEADER_LENGTH {
                header[at]
            } else {
                self.compressed_data[at - HEADER_LENGTH]
            };
            buf[k] = byte;
            k = k + 1;
        }
        self.index = self.index + n;
        assert(buf@.subrange(0, n as int) =~= s.subrange(start, start + n));
        assert(buf@.subrange(n as int, buf@.len() as int) =~= old(buf)@.subrange(
            n as int,
            old(buf)@.len() as int,
        ));
        n
    }
}

/// Why data could not be decompressed.
#[derive(Debug)]
pub enum DecoderError {
    /// The data is too short for the header (`None, None`), or a library
    /// found the block too short for the size that the header declares.
    UncompressedDataBufferIsTooShort(Option<std::io::Error>, Option<u32>),
    /// The data does not start with the magic bytes; these are its first bytes.
    BadHeader([u8; MAGIC_HEADER_LENGTH]),
    /// The C library failed on the block.
    InternalCLibraryError(std::io::Error),
    /// The C library failed in another way.
    UnknownIoError(std::io::Error),
    /// A library failed with this message.
    TextError(String),
    /// A match points before the start of the decoded data, or has offset 0.
    InvalidDeduplicationOffset,
    /// The block ends inside the field that starts at this position.
    TruncatedSequence(usize),
    /// The block decodes to another number of bytes than the header declares.
    SizeMismatch { declared: u32, actual: usize },
}

/// What a decoding error says in terms of the container format.
pub open spec fn fault_of(e: DecoderError) -> ContainerFault {
    match e {
        DecoderError::UncompressedDataBufferIsTooShort(None, None) => ContainerFault::TooShort,
        DecoderError::BadHeader(_) => ContainerFault::BadHeader,
        DecoderError::TruncatedSequence(p) => ContainerFault::Block(
            BlockError::TruncatedSequence(p),
        ),
        DecoderError::SizeMismatch { .. } => ContainerFault::SizeMismatch,
        _ => ContainerFault::Backend,
    }
}

/// What a result of `decompress` says in terms of the container format; an
/// invalid offset is not told apart by position.
pub open spec fn outcome_of(r: Result<Vec<u8>, DecoderError>) -> Result<Seq<u8>, ContainerFault> {
    match r {
        Ok(v) => Ok(v@),
        Err(e) => Err(fault_of(e)),
    }
}

/// Whether `r` is what the container format asks for, given that
/// `expected` is what it decodes to.
pub open spec fn agrees_with(r: Result<Vec<u8>, DecoderError>, expected: Result<Seq<u8>, ContainerFault>) -> bool {
    match expected {
        Err(ContainerFault::Block(BlockError::InvalidDeduplicationOffset(_))) => r matches Err(
            DecoderError::InvalidDeduplicationOffset,
        ),
        _ => outcome_of(r) == expected,
    }
}

/// Whether decoding `c` with any library may be attempted: the decoded data
/// must be addressable.
pub open spec fn decodable_size(c: Seq<u8>) -> bool {
    255 * c.len() + 15 <= usize::MAX
}

/// Reads the size that the header of `data` declares.
fn read_size(data: &[u8]) -> (r: u32)
    requires
        data@.len() >= HEADER_LENGTH,
    ensures
        r as int == le32_at(data@, MAGIC_HEADER_LENGTH as int),
{
    data[8] as u32 + 256 * (data[9] as u32) + 65536 * (data[10] as u32) + 16777216 * (
    data[11] as u32)
}

/// Accepts the decoded `output` where it has the declared `size`.
pub fn check_size(output: Vec<u8>, size: u32) -> (r: Result<Vec<u8>, DecoderError>)
    ensures
        output@.len() == size ==> (r matches Ok(v) && v@ == output@),
        output@.len() != size ==> (r matches Err(DecoderError::SizeMismatch { declared, actual })
            && declared == size && actual == output@.len()),
{
    if output.len() as u64 == size as u64 {
        Ok(output)
    } else {
        let actual = output.len();
        Err(DecoderError::SizeMismatch { declared: size, actual })
    }
}

/// Decodes a block with the decoder of this crate.
fn decode_payload(block: &[u8]) -> (r: Result<Vec<u8>, DecoderError>)
    requires
        255 * block@.len() + 15 <= usize::MAX,
    ensures
        match decode_block(block@) {
            Ok(s) => (r matches Ok(v) && v@ == s),
            Err(BlockError::TruncatedSequence(p)) => (r matches Err(
                DecoderError::TruncatedSequence(q),
            ) && p == q),
            Err(BlockError::InvalidDeduplicationOffset(_)) => r matches Err(
                DecoderError::InvalidDeduplicationOffset,
            ),
        },
{
    let mut output: Vec<u8> = Vec::new();
    match crate::block::decompress(block, &mut output) {
        Ok(_) => {
            assert(output@ =~= Seq::<u8>::empty() + output@);
            Ok(output)
        },
        Err(BlockError::TruncatedSequence(p)) => Err(DecoderError::TruncatedSequence(p)),
        Err(BlockError::InvalidDeduplicationOffset(_)) => Err(
            DecoderError::InvalidDeduplicationOffset,
        ),
    }
}

/// Decompresses a container with `library`. The header is checked first;
/// then the block is decoded and its length compared with the declared size.
pub fn decompress(data: &[u8], library: SupportedCompressionLibrary) -> (r: Result<
    Vec<u8>,
    DecoderError,
>)
    requires
        decodable_size(data@),
    ensures
        data@.len() < HEADER_LENGTH ==> r matches Err(
            DecoderError::UncompressedDataBufferIsTooShort(None, None),
        ),
        data@.len() >= HEADER_LENGTH && data@.subrange(0, MAGIC_HEADER_LENGTH as int) != magic()
            ==> (r matches Err(DecoderError::BadHeader(h)) && h@ == data@.subrange(
            0,
            MAGIC_HEADER_LENGTH as int,
        )),
        library == SupportedCompressionLibrary::PortedNodeLz4 ==> agrees_with(
            r,
            decode_container(data@),
        ),
        library == SupportedCompressionLibrary::Compress ==> agrees_with(
            r,
            match decode_container(data@) {
                Err(ContainerFault::SizeMismatch) => size_checked(
                    data@,
                    compress_decoded(payload(data@)),
                ),
                Ok(_) => size_checked(data@, compress_decoded(payload(data@))),
                Err(f) => Err(f),
            },
        ),
        r matches Ok(v) ==> v@.len() == le32_at(data@, MAGIC_HEADER_LENGTH as int),
        r matches Ok(v) ==> (library == SupportedCompressionLibrary::Lz4 ==> v@ == lz4_decoded(
            payload(data@),
            le32_at(data@, MAGIC_HEADER_LENGTH as int) as u32 as i32,
        )),
        r matches Ok(v) ==> (library == SupportedCompressionLibrary::Lz4Compression ==> v@
            == lz4_compression_decoded(payload(data@))),
        r matches Ok(v) ==> (library == SupportedCompressionLibrary::Lz4Compress ==> v@
            == lz4_compress_decoded(payload(data@))),
        r matches Ok(v) ==> (library == SupportedCompressionLibrary::Lz4Flex ==> v@
            == lz4_flex_decoded(data@.subrange(MAGIC_HEADER_LENGTH as int, data@.len() as int))),
{
    if data.len() < HEADER_LENGTH {
        return Err(DecoderError::UncompressedDataBufferIsTooShort(None, None));
    }
    let header: [u8; MAGIC_HEADER_LENGTH] = [
        data[0],
        data[1],
        data[2],
        data[3],
        data[4],
        data[5],
        data[6],
        data[7],
    ];
    let mut i: usize = 0;
    while i < MAGIC_HEADER_LENGTH
        invariant
            i <= MAGIC_HEADER_LENGTH,
            data@.len() >= HEADER_LENGTH,
            header@ == data@.subrange(0, MAGIC_HEADER_LENGTH as int),
            forall|m: int| 0 <= m < i ==> data@[m] == magic()[m],
        decreases MAGIC_HEADER_LENGTH - i,
    {
        if data[i] != MAGIC_HEADER[i] {
            assert(data@.subrange(0, MAGIC_HEADER_LENGTH as int)[i as int] != magic()[i as int]);
            return Err(DecoderError::BadHeader(header));
        }
        i = i + 1;
    }
    assert(data@.subrange(0, MAGIC_HEADER_LENGTH as int) =~= magic());
    let size = read_size(data);
    let sized_block = data.split_at(MAGIC_HEADER_LENGTH).1;
    let block = data.split_at(HEADER_LENGTH).1;
    assert(block@ == payload(data@));
    let output = match library {
        SupportedCompressionLibrary::Lz4 => lz4_decompress_block(block, size),
        SupportedCompressionLibrary::Compress => match decode_payload(block) {
            Ok(_) => Ok(compress_decode_block(block)),
            Err(e) => Err(e),
        },
        SupportedCompressionLibrary::Lz4Compression => lz4_compression_decompress(block, size),
        SupportedCompressionLibrary::Lz4Compress => lz4_compress_decompress(block),
        SupportedCompressionLibrary::Lz4Flex => lz4_flex_decompress(sized_block),
        SupportedCompressionLibrary::PortedNodeLz4 => decode_payload(block),
    };
    match output {
        Ok(v) => check_size(v, size),
        Err(e) => Err(e),
    }
}

} // verus!
