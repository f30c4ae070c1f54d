use mozlz4::block::{self, compress_bound, BlockError, MAX_COMPRESSION_INPUT_SIZE};
use mozlz4::container::{
    decompress, CompressionLibrary, CompressionMode, DecoderError, Encoder, EncoderError,
    SupportedCompressionLibrary, HEADER_LENGTH, MAGIC_HEADER, MAGIC_HEADER_LENGTH,
};

/// A small session store document.
const SESSION_JSON: &[u8] = b"{\"version\":[\"sessionrestore\",1],\"windows\":[{\"tabs\":[{\"entries\":[{\"url\":\"about:blank\",\"title\":\"New Tab\"}]},{\"entries\":[{\"url\":\"about:blank\",\"title\":\"New Tab\"}]}],\"selected\":1}],\"selectedWindow\":1,\"_closedWindows\":[],\"session\":{\"state\":\"running\"}}";

fn push_length(out: &mut Vec<u8>, mut n: usize) {
    n -= 15;
    while n >= 255 {
        out.push(255);
        n -= 255;
    }
    out.push(n as u8);
}

/// Writes a block of records, each literals, an offset and a match length,
/// followed by the literals `last`.
fn block_of(records: &[(&[u8], u16, usize)], last: &[u8]) -> Vec<u8> {
    let mut out = Vec::new();
    for &(lits, offset, match_len) in records {
        let ml = match_len - 4;
        let token = ((lits.len().min(15) as u8) << 4) | (ml.min(15) as u8);
        out.push(token);
        if lits.len() >= 15 {
            push_length(&mut out, lits.len());
        }
        out.extend_from_slice(lits);
        out.push((offset & 0xff) as u8);
        out.push((offset >> 8) as u8);
        if ml >= 15 {
            push_length(&mut out, ml);
        }
    }
    out.push((last.len().min(15) as u8) << 4);
    if last.len() >= 15 {
        push_length(&mut out, last.len());
    }
    out.extend_from_slice(last);
    out
}

fn container_of(size: usize, block: &[u8]) -> Vec<u8> {
    let mut out = MAGIC_HEADER.to_vec();
    out.extend_from_slice(&(size as u32).to_le_bytes());
    out.extend_from_slice(block);
    out
}

/// The session store document as a container whose block repeats the second
/// tab through a match, the way an LZ4 compressor would.
fn session_container() -> Vec<u8> {
    let tab = b"{\"entries\":[{\"url\":\"about:blank\",\"title\":\"New Tab\"}]}";
    let start = SESSION_JSON
        .windows(tab.len())
        .position(|w| w == &tab[..])
        .unwrap();
    let first_end = start + tab.len() + 1; // the tab and the comma after it
    let second_end = first_end + tab.len();
    let block = block_of(
        &[(&SESSION_JSON[..first_end], (tab.len() + 1) as u16, tab.len())],
        &SESSION_JSON[second_end..],
    );
    container_of(SESSION_JSON.len(), &block)
}

fn read_all(encoder: &mut Encoder, chunk: usize) -> Vec<u8> {
    let mut out = Vec::new();
    let mut buf = vec![0u8; chunk];
    loop {
        let n = encoder.read(&mut buf);
        if n == 0 {
            break;
        }
        out.extend_from_slice(&buf[..n]);
    }
    out
}

#[test]
fn magic_header_length() {
    assert_eq!(MAGIC_HEADER_LENGTH, MAGIC_HEADER.len())
}

#[test]
fn decompress_all() {
    let compressed = session_container();
    for &library in CompressionLibrary::get_all().iter() {
        let library = SupportedCompressionLibrary::try_from_compression_lib(library).unwrap();
        let decompressed = decompress(&compressed, library)
            .unwrap_or_else(|e| panic!("{:?} failed: {:?}", library, e));
        assert_eq!(decompressed, SESSION_JSON, "{:?}", library);
    }
}

#[test]
fn compress_all() {
    for &library in CompressionLibrary::get_all().iter() {
        if library.panic_on_compress() {
            continue;
        }
        let supported = library.try_into_supported().unwrap();
        let mut encoder = Encoder::compress(SESSION_JSON, None, supported).unwrap();
        let header = encoder.get_header();
        let stream = read_all(&mut encoder, 4096);
        assert_eq!(&stream[..HEADER_LENGTH], &header[..]);
        assert_eq!(&stream[..MAGIC_HEADER_LENGTH], &MAGIC_HEADER[..]);
        assert_eq!(&stream[MAGIC_HEADER_LENGTH..HEADER_LENGTH], &(SESSION_JSON.len() as u32).to_le_bytes());
        assert!(stream.len() > HEADER_LENGTH);
    }
}

#[test]
fn compress_and_decompress_all() {
    for &library in CompressionLibrary::get_all().iter() {
        if library.panic_on_compress() {
            continue;
        }
        let supported = library.try_into_supported().unwrap();
        let mut encoder = Encoder::compress(SESSION_JSON, None, supported).unwrap();
        let compressed = read_all(&mut encoder, 4096);
        let decompressed = decompress(&compressed, supported).unwrap();
        assert_eq!(decompressed, SESSION_JSON, "{:?}", library);
        // Every block of the libraries is read by the decoder of this crate too.
        let decompressed =
            decompress(&compressed, SupportedCompressionLibrary::PortedNodeLz4).unwrap();
        assert_eq!(decompressed, SESSION_JSON, "{:?}", library);
    }
}

#[test]
fn compress_with_modes_round_trip() {
    for mode in [
        None,
        Some(CompressionMode::DEFAULT),
        Some(CompressionMode::FAST(2)),
        Some(CompressionMode::HIGHCOMPRESSION(9)),
    ] {
        let encoder = Encoder::compress(SESSION_JSON, mode, SupportedCompressionLibrary::Lz4).unwrap();
        let mut compressed = encoder.get_header().to_vec();
        compressed.extend(encoder.get_vec_without_header());
        let decompressed =
            decompress(&compressed, SupportedCompressionLibrary::PortedNodeLz4).unwrap();
        assert_eq!(decompressed, SESSION_JSON);
    }
}

#[test]
fn header_holds_magic_and_length() {
    let encoder =
        Encoder::compress(b"aaaaaaaaaa", None, SupportedCompressionLibrary::Lz4Flex).unwrap();
    assert_eq!(
        encoder.get_header(),
        [0x6D, 0x6F, 0x7A, 0x4C, 0x7A, 0x34, 0x30, 0x00, 10, 0, 0, 0]
    );
    let encoder = Encoder::compress(&[], None, SupportedCompressionLibrary::Lz4Flex).unwrap();
    assert_eq!(encoder.get_header()[8..], [0, 0, 0, 0]);
}

#[test]
fn encoder_reads_in_small_chunks() {
    let encoder =
        Encoder::compress(SESSION_JSON, None, SupportedCompressionLibrary::Lz4Flex).unwrap();
    let mut whole = encoder.get_header().to_vec();
    whole.extend(encoder.get_vec_without_header());
    let mut encoder =
        Encoder::compress(SESSION_JSON, None, SupportedCompressionLibrary::Lz4Flex).unwrap();
    let stream = read_all(&mut encoder, 5);
    assert_eq!(stream, whole);
    let mut buf = [7u8; 3];
    assert_eq!(encoder.read(&mut buf), 0);
    assert_eq!(buf, [7, 7, 7]);
}

#[test]
fn libraries_that_cannot_compress_are_refused() {
    for library in [
        SupportedCompressionLibrary::Compress,
        SupportedCompressionLibrary::PortedNodeLz4,
    ] {
        match Encoder::compress(b"abc", None, library) {
            Err(EncoderError::Unsupported(l)) => assert_eq!(l, library.to_compression_lib()),
            _ => panic!("{:?} should be refused", library),
        }
    }
}

#[test]
fn library_facts() {
    let all = CompressionLibrary::get_all();
    assert_eq!(all.len(), 6);
    for &library in all.iter() {
        assert!(library.is_supported());
        let supported = SupportedCompressionLibrary::try_from_compression_lib(library).unwrap();
        assert_eq!(supported.to_compression_lib(), library);
    }
    assert!(CompressionLibrary::Lz4.same_as_firefox_compression());
    assert!(!CompressionLibrary::Lz4Flex.same_as_firefox_compression());
    assert!(CompressionLibrary::Compress.panic_on_compress());
    assert!(CompressionLibrary::PortedNodeLz4.panic_on_compress());
    assert!(!CompressionLibrary::Lz4Flex.panic_on_compress());
}

#[test]
fn short_input_is_too_short() {
    for library in [
        SupportedCompressionLibrary::PortedNodeLz4,
        SupportedCompressionLibrary::Lz4Flex,
    ] {
        assert!(matches!(
            decompress(b"mozLz40\0\x01", library),
            Err(DecoderError::UncompressedDataBufferIsTooShort(None, None))
        ));
    }
}

#[test]
fn bad_magic_is_refused() {
    let mut data = session_container();
    data[3] = b'l';
    for &library in CompressionLibrary::get_all().iter() {
        let library = library.try_into_supported().unwrap();
        match decompress(&data, library) {
            Err(DecoderError::BadHeader(h)) => assert_eq!(&h, b"mozlz40\0"),
            other => panic!("{:?}: {:?}", library, other.map(|v| v.len())),
        }
    }
    assert!(matches!(
        decompress(&[0u8; 12], SupportedCompressionLibrary::PortedNodeLz4),
        Err(DecoderError::BadHeader([0, 0, 0, 0, 0, 0, 0, 0]))
    ));
}

#[test]
fn truncated_containers_are_refused() {
    let data = session_container();
    for k in 0..data.len() {
        assert!(
            decompress(&data[..k], SupportedCompressionLibrary::PortedNodeLz4).is_err(),
            "prefix of {} bytes",
            k
        );
    }
    assert_eq!(
        decompress(&data, SupportedCompressionLibrary::PortedNodeLz4).unwrap(),
        SESSION_JSON
    );
}

#[test]
fn wrong_declared_size_is_refused() {
    let block = block_of(&[], b"hello");
    let data = container_of(6, &block);
    match decompress(&data, SupportedCompressionLibrary::PortedNodeLz4) {
        Err(DecoderError::SizeMismatch { declared, actual }) => {
            assert_eq!(declared, 6);
            assert_eq!(actual, 5);
        }
        other => panic!("{:?}", other),
    }
}

#[test]
fn zero_offset_is_refused() {
    let mut out = Vec::new();
    assert_eq!(
        block::decompress(&[0x20, b'a', b'b', 0, 0, 0x00], &mut out),
        Err(BlockError::InvalidDeduplicationOffset(3))
    );
    let data = container_of(10, &[0x10, b'a', 0, 0]);
    assert!(matches!(
        decompress(&data, SupportedCompressionLibrary::PortedNodeLz4),
        Err(DecoderError::InvalidDeduplicationOffset)
    ));
}

#[test]
fn offset_past_output_is_refused() {
    let mut out = Vec::new();
    assert_eq!(
        block::decompress(&[0x20, b'a', b'b', 3, 0], &mut out),
        Err(BlockError::InvalidDeduplicationOffset(3))
    );
}

#[test]
fn overlapping_match_repeats_bytes() {
    let mut out = Vec::new();
    assert_eq!(block::decompress(&[0x15, b'x', 1, 0], &mut out), Ok(10));
    assert_eq!(out, b"xxxxxxxxxx");
    let mut out = Vec::new();
    assert_eq!(block::decompress(&[0x24, b'a', b'b', 2, 0], &mut out), Ok(10));
    assert_eq!(out, b"ababababab");
}

#[test]
fn ten_as_decode() {
    let plain = b"aaaaaaaaaa";
    // One literal, then a match of nine bytes at offset one.
    let data = container_of(10, &[0x15, b'a', 1, 0]);
    let decoded = decompress(&data, SupportedCompressionLibrary::PortedNodeLz4).unwrap();
    assert_eq!(decoded, plain);
    // The same, closed by an empty literal run.
    let data = container_of(10, &[0x15, b'a', 1, 0, 0x00]);
    let decoded = decompress(&data, SupportedCompressionLibrary::PortedNodeLz4).unwrap();
    assert_eq!(decoded, plain);
    // Literals only, as LZ4 compressors write such short data.
    let data = container_of(10, &block_of(&[], plain));
    for &library in CompressionLibrary::get_all().iter() {
        let decoded = decompress(&data, library.try_into_supported().unwrap()).unwrap();
        assert_eq!(decoded, plain, "{:?}", library);
    }
}

#[test]
fn block_appends_to_output() {
    let mut out = b"xyz".to_vec();
    assert_eq!(block::decompress(&[0x30, b'a', b'b', b'c'], &mut out), Ok(3));
    assert_eq!(out, b"xyzabc");
}

#[test]
fn truncated_blocks_report_the_field() {
    let mut out = Vec::new();
    // Literal run cut short.
    assert_eq!(
        block::decompress(&[0x30, b'a'], &mut out),
        Err(BlockError::TruncatedSequence(1))
    );
    // Literal length extension missing.
    let mut out = Vec::new();
    assert_eq!(
        block::decompress(&[0xF0, 255], &mut out),
        Err(BlockError::TruncatedSequence(1))
    );
    // Offset cut short.
    let mut out = Vec::new();
    assert_eq!(
        block::decompress(&[0x10, b'a', 1], &mut out),
        Err(BlockError::TruncatedSequence(2))
    );
    // Match length extension missing.
    let mut out = Vec::new();
    assert_eq!(
        block::decompress(&[0x1F, b'a', 1, 0], &mut out),
        Err(BlockError::TruncatedSequence(4))
    );
}

#[test]
fn long_lengths_use_extension_bytes() {
    let lits: Vec<u8> = (0..300u32).map(|i| (i % 251) as u8).collect();
    let block = block_of(&[(&lits[..], 1, 600)], b"end");
    let mut out = Vec::new();
    let n = block::decompress(&block, &mut out).unwrap();
    assert_eq!(n, 300 + 600 + 3);
    assert_eq!(&out[..300], &lits[..]);
    assert!(out[300..900].iter().all(|&b| b == lits[299]));
    assert_eq!(&out[900..], b"end");
}

#[test]
fn empty_block_decodes_to_nothing() {
    let mut out = Vec::new();
    assert_eq!(block::decompress(&[], &mut out), Ok(0));
    assert_eq!(block::decompress(&[0x00], &mut out), Ok(0));
    assert!(out.is_empty());
}

#[test]
fn compress_bound_values() {
    assert_eq!(compress_bound(0), Some(16));
    assert_eq!(compress_bound(255), Some(255 + 1 + 16));
    assert_eq!(compress_bound(1000), Some(1000 + 3 + 16));
    assert_eq!(
        compress_bound(MAX_COMPRESSION_INPUT_SIZE),
        Some(MAX_COMPRESSION_INPUT_SIZE + MAX_COMPRESSION_INPUT_SIZE / 255 + 16)
    );
    assert_eq!(compress_bound(MAX_COMPRESSION_INPUT_SIZE + 1), None);
}

#[test]
fn library_errors_are_sorted() {
    // A block that claims more literals than it holds.
    let data = container_of(10, &[0xF0, 0x05, b'a']);
    assert!(matches!(
        decompress(&data, SupportedCompressionLibrary::Lz4),
        Err(DecoderError::InternalCLibraryError(_))
    ));
    assert!(matches!(
        decompress(&data, SupportedCompressionLibrary::Lz4Compress),
        Err(DecoderError::TextError(_))
    ));
    assert!(matches!(
        decompress(&data, SupportedCompressionLibrary::PortedNodeLz4),
        Err(DecoderError::TruncatedSequence(2))
    ));
    assert!(matches!(
        decompress(&data, SupportedCompressionLibrary::Compress),
        Err(DecoderError::TruncatedSequence(2))
    ));
    // A size that the C library cannot take.
    let data = container_of(0x8000_0000, &block_of(&[], b"abc"));
    assert!(matches!(
        decompress(&data, SupportedCompressionLibrary::Lz4),
        Err(DecoderError::UncompressedDataBufferIsTooShort(Some(_), Some(0x8000_0000)))
    ));
}
