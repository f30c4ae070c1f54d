//! The raw LZ4 block format: a sequence of records, each made of a token,
//! an optional extended literal length, the literal bytes, a two byte
//! little-endian back-reference offset and an optional extended match length.
//! The last record of a block stops after its literals.
use vstd::prelude::*;

verus! {

/// Largest input that an LZ4 block encoder accepts.
pub const MAX_COMPRESSION_INPUT_SIZE: u32 = 0x7E00_0000;

/// Shortest match that a record can describe; it is implicit in the format.
pub const MIN_MATCH: usize = 4;

/// Data to compress, which may know its length ahead.
pub trait CompressInput {
    fn expected_len(&self) -> Option<usize>;
}

/// The table of earlier positions that a compressor looks matches up in.
pub trait CompressHashTable {}

/// Why a block could not be decoded. Each variant carries the position in
/// the block of the field that could not be processed.
#[derive(Debug, Clone, Copy, PartialEq, Eq, Structural)]
pub enum BlockError {
    /// The block ended inside the field that starts at this position.
    TruncatedSequence(usize),
    /// The offset field at this position is zero or points before the start
    /// of the decoded output.
    InvalidDeduplicationOffset(usize),
}

/// The value of an extension length that starts at `i`: the sum of the bytes
/// read up to and including the first byte that is not 255, together with the
/// position after that byte. `None` when the block ends before such a byte.
pub open spec fn ext_len(b: Seq<u8>, i: int) -> Option<(int, int)>
    decreases b.len() - i,
{
    if i < 0 || i >= b.len() {
        None
    } else if b[i] == 255 {
        match ext_len(b, i + 1) {
            Some((a, j)) => Some((255 + a, j)),
            None => None,
        }
    } else {
        Some((b[i] as int, i + 1))
    }
}

/// A length whose token nibble is `nibble`, read from position `i`: a nibble
/// of 15 is followed by an extension.
pub open spec fn field_len(b: Seq<u8>, i: int, nibble: int) -> Option<(int, int)> {
    if nibble == 15 {
        match ext_len(b, i) {
            Some((a, j)) => Some((15 + a, j)),
            None => None,
        }
    } else {
        Some((nibble, i))
    }
}

/// Appends `n` bytes to `out`, each one copied from `off` bytes before the end
/// of what has been written so far, one byte at a time.
pub open spec fn copy_match(out: Seq<u8>, off: int, n: nat) -> Seq<u8>
    decreases n,
{
    if n == 0 {
        out
    } else {
        let o = copy_match(out, off, (n - 1) as nat);
        o.push(o[o.len() - off])
    }
}

/// The offset stored in the two bytes at `i`.
pub open spec fn offset_at(b: Seq<u8>, i: int) -> int {
    b[i] as int + 256 * (b[i + 1] as int)
}

/// Decodes the records of `b` from position `i` on, where `out` is what the
/// earlier records of the block produced.
pub open spec fn decode_from(b: Seq<u8>, i: int, out: Seq<u8>) -> Result<Seq<u8>, BlockError>
    decreases b.len() - i,
    via decode_from_decreases
{
    if i < 0 || i >= b.len() {
        Ok(out)
    } else {
        let token = b[i];
        match field_len(b, i + 1, (token / 16) as int) {
            None => Err(BlockError::TruncatedSequence((i + 1) as usize)),
            Some((ll, i2)) => {
                if i2 + ll > b.len() {
                    Err(BlockError::TruncatedSequence(i2 as usize))
                } else {
                    let out2 = out + b.subrange(i2, i2 + ll);
                    let i3 = i2 + ll;
                    if i3 == b.len() {
                        Ok(out2)
                    } else if i3 + 2 > b.len() {
                        Err(BlockError::TruncatedSequence(i3 as usize))
                    } else {
                        let off = offset_at(b, i3);
                        if off == 0 || off > out2.len() {
                            Err(BlockError::InvalidDeduplicationOffset(i3 as usize))
                        } else {
                            match field_len(b, i3 + 2, (token % 16) as int) {
                                None => Err(BlockError::TruncatedSequence((i3 + 2) as usize)),
                                Some((ml, i5)) => decode_from(
                                    b,
                                    i5,
                                    copy_match(out2, off, (ml + 4) as nat),
                                ),
                            }
                        }
                    }
                }
            },
        }
    }
}

/// What a whole block decodes to.
pub open spec fn decode_block(b: Seq<u8>) -> Result<Seq<u8>, BlockError> {
    decode_from(b, 0, Seq::empty())
}

/// An extension length ends inside the block, after where it starts, and
/// adds at most 255 for each byte it takes.
pub proof fn lemma_ext_len_bounds(b: Seq<u8>, i: int)
    ensures
        ext_len(b, i) matches Some((a, j)) ==> i < j <= b.len() && 0 <= a <= 255 * (j - i),
    decreases b.len() - i,
{
    if 0 <= i < b.len() && b[i] == 255 {
        lemma_ext_len_bounds(b, i + 1);
    }
}

/// A length field ends where it starts or inside the block.
pub proof fn lemma_field_len_bounds(b: Seq<u8>, i: int, nibble: int)
    requires
        0 <= nibble < 16,
    ensures
        field_len(b, i, nibble) matches Some((a, j)) ==> i <= j <= b.len() || (j == i && nibble
            < 15),
        field_len(b, i, nibble) matches Some((a, j)) ==> 0 <= a <= 15 + 255 * (j - i) && i <= j,
{
    lemma_ext_len_bounds(b, i);
}

#[via_fn]
proof fn decode_from_decreases(b: Seq<u8>, i: int, out: Seq<u8>) {
    if 0 <= i < b.len() {
        let token = b[i];
        lemma_field_len_bounds(b, i + 1, (token / 16) as int);
        if let Some((ll, i2)) = field_len(b, i + 1, (token / 16) as int) {
            let i3 = i2 + ll;
            lemma_field_len_bounds(b, i3 + 2, (token % 16) as int);
        }
    }
}

/// A match appends exactly its length and keeps what came before.
pub proof fn lemma_copy_match_len(out: Seq<u8>, off: int, n: nat)
    ensures
        copy_match(out, off, n).len() == out.len() + n,
        copy_match(out, off, n).subrange(0, out.len() as int) == out,
    decreases n,
{
    if n > 0 {
        lemma_copy_match_len(out, off, (n - 1) as nat);
        let o = copy_match(out, off, (n - 1) as nat);
        assert(o.push(o[o.len() - off]).subrange(0, out.len() as int) =~= o.subrange(
            0,
            out.len() as int,
        ));
    }
}

/// Reads the length field whose token nibble is `nibble` from position `i`.
fn read_length(input: &[u8], i: usize, nibble: usize) -> (r: Option<(usize, usize)>)
    requires
        nibble < 16,
        255 * input@.len() + 15 <= usize::MAX,
    ensures
        match field_len(input@, i as int, nibble as int) {
            Some((a, j)) => r == Some((a as usize, j as usize)),
            None => r.is_none(),
        },
{
    if nibble != 15 {
        return Some((nibble, i));
    }
    let mut acc: usize = 15;
    let mut j: usize = i;
    proof {
        lemma_ext_len_bounds(input@, i as int);
    }
    loop
        invariant
            nibble == 15,
            i <= j,
            acc <= 15 + 255 * (j - i),
            255 * input@.len() + 15 <= usize::MAX,
            j <= input@.len() || j == i,
            field_len(input@, i as int, 15) == match ext_len(input@, j as int) {
                Some((a, k)) => Some((acc + a, k)),
                None => None::<(int, int)>,
            },
        decreases input@.len() - j,
    {
        if j >= input.len() {
            assert(ext_len(input@, j as int) == None::<(int, int)>);
            return None;
        }
        let byte = input[j];
        proof {
            lemma_ext_len_bounds(input@, j as int + 1);
        }
        if byte != 255 {
            assert(ext_len(input@, j as int) == Some((byte as int, j + 1)));
            return Some((acc + byte as usize, j + 1));
        }
        acc = acc + 255;
        j = j + 1;
    }
}

/// Decodes a block, appending what it holds to `output`, and returns how many
/// bytes were appended. On an error it returns the position of the field
/// that could not be processed; `output` still starts with what it held.
/// The bound on the lengths keeps every length and position of the decoded
/// data within `usize`.
pub fn decompress(input: &[u8], output: &mut Vec<u8>) -> (r: Result<usize, BlockError>)
    requires
        old(output)@.len() + 255 * input@.len() + 15 <= usize::MAX,
    ensures
        final(output)@.subrange(0, old(output)@.len() as int) == old(output)@,
        match decode_block(input@) {
            Ok(s) => r == Ok::<usize, BlockError>(s.len() as usize) && final(output)@ == old(
                output,
            )@ + s,
            Err(e) => r == Err::<usize, BlockError>(e),
        },
{
    let start = output.len();
    let mut i: usize = 0;
    let ghost b = input@;
    assert(output@.subrange(start as int, output@.len() as int) =~= Seq::<u8>::empty());
    while i < input.len()
        invariant
            start == old(output)@.len(),
            start + 255 * b.len() + 15 <= usize::MAX,
            b == input@,
            i <= b.len(),
            start <= output@.len(),
            output@.len() - start <= 255 * i,
            output@.subrange(0, start as int) == old(output)@,
            decode_block(b) == decode_from(b, i as int, output@.subrange(start as int, output@.len() as int)),
        decreases b.len() - i,
    {
        let ghost out = output@.subrange(start as int, output@.len() as int);
        let token = input[i];
        let lit = read_length(input, i + 1, (token / 16) as usize);
        proof {
            lemma_field_len_bounds(b, i + 1, (token / 16) as int);
        }
        let (ll, i2) = match lit {
            None => return Err(BlockError::TruncatedSequence(i + 1)),
            Some(p) => p,
        };
        if ll > input.len() - i2 {
            return Err(BlockError::TruncatedSequence(i2));
        }
        let i3 = i2 + ll;
        let mut k: usize = i2;
        while k < i3
            invariant
                i2 <= k <= i3 <= b.len(),
                b == input@,
                start <= output@.len(),
                output@.subrange(0, start as int) == old(output)@,
                output@.subrange(start as int, output@.len() as int) == out + b.subrange(
                    i2 as int,
                    k as int,
                ),
            decreases i3 - k,
        {
            let ghost prev = output@;
            output.push(input[k]);
            proof {
                assert(b.subrange(i2 as int, k + 1) =~= b.subrange(i2 as int, k as int).push(b[k as int]));
                assert(output@.subrange(start as int, output@.len() as int) =~= prev.subrange(start as int, prev.len() as int).push(b[k as int]));
                assert(output@.subrange(start as int, output@.len() as int) =~= out + b.subrange(
                    i2 as int,
                    k + 1,
                ));
                assert(output@.subrange(0, start as int) =~= old(output)@);
            }
            k = k + 1;
        }
        let ghost out2 = out + b.subrange(i2 as int, i3 as int);
        if i3 == input.len() {
            return Ok(output.len() - start);
        }
        if input.len() - i3 < 2 {
            return Err(BlockError::TruncatedSequence(i3));
        }
        let off = input[i3] as usize + 256 * (input[i3 + 1] as usize);
        let count = output.len() - start;
        if off == 0 || off > count {
            return Err(BlockError::InvalidDeduplicationOffset(i3));
        }
        let mat = read_length(input, i3 + 2, (token % 16) as usize);
        proof {
            lemma_field_len_bounds(b, i3 + 2, (token % 16) as int);
        }
        let (ml, i5) = match mat {
            None => return Err(BlockError::TruncatedSequence(i3 + 2)),
            Some(p) => p,
        };
        let total = ml + MIN_MATCH;
        let mut copied: usize = 0;
        while copied < total
            invariant
                copied <= total,
                off <= out2.len(),
                off > 0,
                start <= output@.len(),
                output@.subrange(0, start as int) == old(output)@,
                output@.subrange(start as int, output@.len() as int) == copy_match(
                    out2,
                    off as int,
                    copied as nat,
                ),
                output@.len() == start + out2.len() + copied,
                start + out2.len() + total <= usize::MAX,
            decreases total - copied,
        {
            let ghost o = copy_match(out2, off as int, copied as nat);
            proof {
                lemma_copy_match_len(out2, off as int, copied as nat);
            }
            let value = output[output.len() - off];
            output.push(value);
            proof {
                assert(output@.subrange(start as int, output@.len() as int) =~= o.push(
                    o[o.len() - off],
                ));
                assert(output@.subrange(0, start as int) =~= old(output)@);
            }
            copied = copied + 1;
        }
        i = i5;
    }
    Ok(output.len() - start)
}

/// The largest block that compressing `uncompressed_size` bytes can give, or
/// `None` when that many bytes are too many to compress.
pub fn compress_bound(uncompressed_size: u32) -> (r: Option<u32>)
    ensures
        uncompressed_size > MAX_COMPRESSION_INPUT_SIZE ==> r.is_none(),
        uncompressed_size <= MAX_COMPRESSION_INPUT_SIZE ==> r == Some(
            (uncompressed_size + uncompressed_size / 255 + 16) as u32,
        ),
{
    if uncompressed_size > MAX_COMPRESSION_INPUT_SIZE {
        None
    } else {
        Some(uncompressed_size + (uncompressed_size / 255) + 16)
    }
}

} // verus!
