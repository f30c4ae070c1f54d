//! What holds of the block and container formats as a whole: encoded records
//! decode back to what they describe, truncated containers are refused, a zero
//! offset is refused and overlapping matches repeat the bytes they overlap.
use vstd::prelude::*;

use crate::block::{
    copy_match, decode_block, decode_from, ext_len, field_len, lemma_copy_match_len,
    lemma_ext_len_bounds, lemma_field_len_bounds, offset_at, BlockError,
};
use crate::container::{
    container_header, decode_container, le32_at, magic, payload, ContainerFault, HEADER_LENGTH,
    MAGIC_HEADER_LENGTH,
};

verus! {

/// The extension bytes that store `v`: as many 255s as fit, then the rest.
pub open spec fn ext_bytes(v: nat) -> Seq<u8>
    decreases v,
{
    if v < 255 {
        seq![v as u8]
    } else {
        seq![255u8] + ext_bytes((v - 255) as nat)
    }
}

/// The token nibble that stands for the length `n`.
pub open spec fn nibble_of(n: nat) -> nat {
    if n < 15 {
        n
    } else {
        15
    }
}

/// The bytes that follow the token for the length `n`.
pub open spec fn len_tail(n: nat) -> Seq<u8> {
    if n < 15 {
        Seq::empty()
    } else {
        ext_bytes((n - 15) as nat)
    }
}

/// A record with a match: `lits`, then `match_len` bytes copied from `offset`
/// bytes back.
pub open spec fn record_bytes(lits: Seq<u8>, offset: nat, match_len: nat) -> Seq<u8> {
    let ml = (match_len - 4) as nat;
    seq![(16 * nibble_of(lits.len()) + nibble_of(ml)) as u8] + len_tail(lits.len()) + lits
        + seq![(offset % 256) as u8, (offset / 256) as u8] + len_tail(ml)
}

/// The last record of a block: literals only.
pub open spec fn last_record_bytes(lits: Seq<u8>) -> Seq<u8> {
    seq![(16 * nibble_of(lits.len())) as u8] + len_tail(lits.len()) + lits
}

/// The block made of the records `recs`, each literals, offset and match
/// length, followed by the literals `last`.
pub open spec fn block_bytes(recs: Seq<(Seq<u8>, nat, nat)>, last: Seq<u8>) -> Seq<u8>
    decreases recs.len(),
{
    if recs.len() == 0 {
        last_record_bytes(last)
    } else {
        record_bytes(recs[0].0, recs[0].1, recs[0].2) + block_bytes(recs.drop_first(), last)
    }
}

/// What the records describe when they follow the output `out`.
pub open spec fn expand(out: Seq<u8>, recs: Seq<(Seq<u8>, nat, nat)>, last: Seq<u8>) -> Seq<u8>
    decreases recs.len(),
{
    if recs.len() == 0 {
        out + last
    } else {
        expand(
            copy_match(out + recs[0].0, recs[0].1 as int, recs[0].2),
            recs.drop_first(),
            last,
        )
    }
}

/// Each record's offset fits in two bytes and points into what was decoded
/// before it, and each match is at least four bytes long.
pub open spec fn valid_records(out: Seq<u8>, recs: Seq<(Seq<u8>, nat, nat)>) -> bool
    decreases recs.len(),
{
    recs.len() == 0 || {
        let (lits, off, ml) = recs[0];
        &&& 1 <= off <= 65535
        &&& off <= out.len() + lits.len()
        &&& ml >= 4
        &&& valid_records(copy_match(out + lits, off as int, ml), recs.drop_first())
    }
}

proof fn lemma_ext_bytes(b: Seq<u8>, i: int, v: nat)
    requires
        0 <= i,
        i + ext_bytes(v).len() <= b.len(),
        b.subrange(i, i + ext_bytes(v).len()) == ext_bytes(v),
    ensures
        ext_len(b, i) == Some((v as int, i + ext_bytes(v).len())),
    decreases v,
{
    if v < 255 {
        assert(b[i] == b.subrange(i, i + 1)[0]);
    } else {
        let rest = ext_bytes((v - 255) as nat);
        assert(b[i] == ext_bytes(v)[0]);
        assert(b.subrange(i + 1, i + 1 + rest.len() as int) =~= ext_bytes(v).subrange(1, 1 + rest.len() as int));
        assert(ext_bytes(v).subrange(1, 1 + rest.len() as int) =~= rest);
        lemma_ext_bytes(b, i + 1, (v - 255) as nat);
    }
}

proof fn lemma_len_tail(b: Seq<u8>, i: int, n: nat)
    requires
        0 <= i,
        i + len_tail(n).len() <= b.len(),
        b.subrange(i, i + len_tail(n).len()) == len_tail(n),
    ensures
        field_len(b, i, nibble_of(n) as int) == Some((n as int, i + len_tail(n).len())),
{
    if n >= 15 {
        lemma_ext_bytes(b, i, (n - 15) as nat);
    }
}

proof fn lemma_decode_records(
    b: Seq<u8>,
    i: int,
    out: Seq<u8>,
    recs: Seq<(Seq<u8>, nat, nat)>,
    last: Seq<u8>,
)
    requires
        0 <= i <= b.len(),
        b.subrange(i, b.len() as int) == block_bytes(recs, last),
        valid_records(out, recs),
    ensures
        decode_from(b, i, out) == Ok::<Seq<u8>, BlockError>(expand(out, recs, last)),
    decreases recs.len(),
{
    let s = b.subrange(i, b.len() as int);
    if recs.len() == 0 {
        let l = last.len();
        let t = len_tail(l);
        assert(s.len() == 1 + t.len() + l);
        assert(b[i] == s[0]);
        assert(b[i] / 16 == nibble_of(l));
        assert(b.subrange(i + 1, i + 1 + t.len() as int) =~= t) by {
            assert(b.subrange(i + 1, i + 1 + t.len() as int) =~= s.subrange(1, 1 + t.len() as int));
        }
        lemma_len_tail(b, i + 1, l);
        let i2 = i + 1 + t.len();
        assert(b.subrange(i2, i2 + l as int) =~= last) by {
            assert(b.subrange(i2, i2 + l as int) =~= s.subrange(1 + t.len() as int, 1 + t.len() as int + l as int));
        }
    } else {
        let (lits, off, ml) = recs[0];
        let l = lits.len();
        let m = (ml - 4) as nat;
        let tl = len_tail(l);
        let tm = len_tail(m);
        let r = record_bytes(lits, off, ml);
        let rest = block_bytes(recs.drop_first(), last);
        assert(s =~= r + rest);
        assert(r.len() == 1 + tl.len() + l + 2 + tm.len());
        assert(b[i] == s[0]);
        assert(b[i] / 16 == nibble_of(l));
        assert(b[i] % 16 == nibble_of(m));
        assert(b.subrange(i + 1, i + 1 + tl.len() as int) =~= tl) by {
            assert(b.subrange(i + 1, i + 1 + tl.len() as int) =~= s.subrange(1, 1 + tl.len() as int));
        }
        lemma_len_tail(b, i + 1, l);
        let i2 = i + 1 + tl.len();
        assert(b.subrange(i2, i2 + l as int) =~= lits) by {
            assert(b.subrange(i2, i2 + l as int) =~= s.subrange(1 + tl.len() as int, 1 + tl.len() as int + l as int));
        }
        let i3 = i2 + l;
        assert(b[i3] == s[1 + tl.len() as int + l as int]);
        assert(b[i3 + 1] == s[2 + tl.len() as int + l as int]);
        assert(offset_at(b, i3) == off);
        let out2 = out + b.subrange(i2, i2 + l);
        assert(out2 == out + lits);
        assert(b.subrange(i3 + 2, i3 + 2 + tm.len() as int) =~= tm) by {
            assert(b.subrange(i3 + 2, i3 + 2 + tm.len() as int) =~= s.subrange(
                3 + tl.len() as int + l as int,
                3 + tl.len() as int + l as int + tm.len() as int,
            ));
        }
        lemma_len_tail(b, i3 + 2, m);
        let i5 = i3 + 2 + tm.len();
        assert(b.subrange(i5, b.len() as int) =~= rest) by {
            assert(b.subrange(i5, b.len() as int) =~= s.subrange(r.len() as int, s.len() as int));
        }
        lemma_decode_records(b, i5, copy_match(out2, off as int, ml), recs.drop_first(), last);
    }
}

/// Round trip: a block made of records whose offsets are valid decodes to
/// exactly the bytes that the records describe.
pub proof fn lemma_block_round_trip(recs: Seq<(Seq<u8>, nat, nat)>, last: Seq<u8>)
    requires
        valid_records(Seq::empty(), recs),
    ensures
        decode_block(block_bytes(recs, last)) == Ok::<Seq<u8>, BlockError>(
            expand(Seq::empty(), recs, last),
        ),
{
    let b = block_bytes(recs, last);
    assert(b.subrange(0, b.len() as int) =~= b);
    lemma_decode_records(b, 0, Seq::empty(), recs, last);
}

proof fn lemma_le32(n: u32)
    ensures
        le32_at(container_header(n), MAGIC_HEADER_LENGTH as int) == n,
{
    let h = container_header(n);
    assert(h[8] == (n % 256) as u8);
    assert(h[9] == ((n / 256) % 256) as u8);
    assert(h[10] == ((n / 65536) % 256) as u8);
    assert(h[11] == (n / 16777216) as u8);
    assert((n % 256) + 256 * ((n / 256) % 256) + 65536 * ((n / 65536) % 256) + 16777216 * (n
        / 16777216) == n) by (bit_vector);
}

/// Round trip through the container: a header that declares the length of
/// the plaintext, followed by a block of valid records that describe it,
/// decodes to the plaintext.
pub proof fn lemma_container_round_trip(recs: Seq<(Seq<u8>, nat, nat)>, last: Seq<u8>)
    requires
        valid_records(Seq::empty(), recs),
        expand(Seq::empty(), recs, last).len() <= u32::MAX,
    ensures
        decode_container(
            container_header(expand(Seq::empty(), recs, last).len() as u32) + block_bytes(
                recs,
                last,
            ),
        ) == Ok::<Seq<u8>, ContainerFault>(expand(Seq::empty(), recs, last)),
{
    let p = expand(Seq::empty(), recs, last);
    let h = container_header(p.len() as u32);
    let c = h + block_bytes(recs, last);
    assert(c.subrange(0, MAGIC_HEADER_LENGTH as int) =~= magic());
    assert(payload(c) =~= block_bytes(recs, last));
    lemma_block_round_trip(recs, last);
    lemma_le32(p.len() as u32);
    assert(le32_at(c, MAGIC_HEADER_LENGTH as int) == le32_at(h, MAGIC_HEADER_LENGTH as int));
}

/// A zero offset is refused: wherever a record's literals are followed by the
/// offset bytes `0, 0`, decoding fails at that offset field.
pub proof fn lemma_zero_offset_refused(b: Seq<u8>, i: int, out: Seq<u8>)
    requires
        0 <= i < b.len(),
        field_len(b, i + 1, (b[i] / 16) as int) matches Some((ll, i2)) && i2 + ll + 2 <= b.len()
            && b[i2 + ll] == 0 && b[i2 + ll + 1] == 0,
    ensures
        field_len(b, i + 1, (b[i] / 16) as int) matches Some((ll, i2)) && decode_from(b, i, out)
            == Err::<Seq<u8>, BlockError>(
            BlockError::InvalidDeduplicationOffset((i2 + ll) as usize),
        ),
{
}

/// The first record of a block with a zero offset makes the whole block fail.
pub proof fn lemma_zero_offset_block(lits: Seq<u8>, rest: Seq<u8>)
    requires
        lits.len() < 15,
    ensures
        decode_block(seq![(16 * lits.len()) as u8] + lits + seq![0u8, 0u8] + rest) == Err::<
            Seq<u8>,
            BlockError,
        >(BlockError::InvalidDeduplicationOffset((1 + lits.len()) as usize)),
{
    let b = seq![(16 * lits.len()) as u8] + lits + seq![0u8, 0u8] + rest;
    assert(b[0] / 16 == lits.len());
    assert(b[1 + lits.len() as int] == 0);
    assert(b[2 + lits.len() as int] == 0);
    lemma_zero_offset_refused(b, 0, Seq::empty());
}

/// A match that overlaps the bytes it copies repeats them: byte `k` of the
/// output is the byte `(k - end) % off` places into the last `off` bytes
/// before the match.
pub proof fn lemma_copy_match_periodic(out: Seq<u8>, off: int, n: nat)
    requires
        1 <= off <= out.len(),
    ensures
        copy_match(out, off, n).len() == out.len() + n,
        forall|k: int|
            out.len() <= k < out.len() + n ==> #[trigger] copy_match(out, off, n)[k] == out[out.len()
                - off + (k - out.len()) % off],
        forall|k: int| 0 <= k < out.len() ==> #[trigger] copy_match(out, off, n)[k] == out[k],
    decreases n,
{
    lemma_copy_match_len(out, off, n);
    if n > 0 {
        let o = copy_match(out, off, (n - 1) as nat);
        lemma_copy_match_periodic(out, off, (n - 1) as nat);
        let p = out.len() + n - 1;
        assert forall|k: int| out.len() <= k < out.len() + n implies #[trigger] copy_match(
            out,
            off,
            n,
        )[k] == out[out.len() - off + (k - out.len()) % off] by {
            if k == p {
                if p - off < out.len() {
                    assert((k - out.len()) % off == k - out.len()) by (nonlinear_arith)
                        requires
                            0 <= k - out.len() < off,
                    ;
                } else {
                    assert((k - out.len()) % off == (k - off - out.len()) % off) by (
                    nonlinear_arith)
                        requires
                            k - off - out.len() >= 0,
                            off > 0,
                    {
                        vstd::arithmetic::div_mod::lemma_mod_add_multiples_vanish(
                            k - off - out.len(),
                            off,
                        );
                    }
                }
            }
        }
    }
}

/// Offset 1 repeats the last byte: a record of one literal `x` and a match
/// of `m + 4` bytes at offset 1 decodes to `m + 5` copies of `x`.
pub proof fn lemma_run_of_one_byte(x: u8, m: nat)
    requires
        m < 15,
    ensures
        decode_block(seq![(16 + m) as u8, x, 1u8, 0u8]) == Ok::<Seq<u8>, BlockError>(
            Seq::new(m + 5, |k: int| x),
        ),
{
    let b = seq![(16 + m) as u8, x, 1u8, 0u8];
    assert(b[0] / 16 == 1);
    assert(b[0] % 16 == m);
    let out2 = Seq::<u8>::empty() + b.subrange(1, 2);
    assert(out2 =~= seq![x]);
    lemma_copy_match_periodic(out2, 1, m + 4);
    let r = copy_match(out2, 1, m + 4);
    assert forall|k: int| 0 <= k < m + 5 implies #[trigger] r[k] == x by {
        if k >= 1 {
            assert((k - 1) % 1 == 0);
        }
    }
    assert(r =~= Seq::new(m + 5, |k: int| x));
    assert(offset_at(b, 2) == 1);
    assert(field_len(b, 1, 1) == Some((1int, 1int)));
    assert(field_len(b, 4, m as int) == Some((m as int, 4int)));
    assert(decode_from(b, 4, r) == Ok::<Seq<u8>, BlockError>(r));
}

/// Whether the records of `b` from position `i` on end with a record that
/// has neither literals nor a match, and so produces nothing.
pub open spec fn ends_in_empty_record(b: Seq<u8>, i: int) -> bool
    decreases b.len() - i,
    via ends_in_empty_record_decreases
{
    if i < 0 || i >= b.len() {
        false
    } else {
        match field_len(b, i + 1, (b[i] / 16) as int) {
            None => false,
            Some((ll, i2)) => {
                if i2 + ll >= b.len() {
                    ll == 0 && i2 == b.len()
                } else if i2 + ll + 2 > b.len() {
                    false
                } else {
                    match field_len(b, i2 + ll + 2, (b[i] % 16) as int) {
                        None => false,
                        Some((ml, i5)) => ends_in_empty_record(b, i5),
                    }
                }
            },
        }
    }
}

#[via_fn]
proof fn ends_in_empty_record_decreases(b: Seq<u8>, i: int) {
    if 0 <= i < b.len() {
        lemma_field_len_bounds(b, i + 1, (b[i] / 16) as int);
        if let Some((ll, i2)) = field_len(b, i + 1, (b[i] / 16) as int) {
            lemma_field_len_bounds(b, i2 + ll + 2, (b[i] % 16) as int);
        }
    }
}

proof fn lemma_ext_len_prefix(b: Seq<u8>, m: int, i: int)
    requires
        0 <= m <= b.len(),
    ensures
        ext_len(b, i) matches Some((a, k)) ==> ext_len(b.subrange(0, m), i) == if k <= m {
            Some((a, k))
        } else {
            None
        },
        ext_len(b, i) is None ==> ext_len(b.subrange(0, m), i) is None,
    decreases b.len() - i,
{
    if 0 <= i < b.len() {
        lemma_ext_len_prefix(b, m, i + 1);
        lemma_ext_len_bounds(b, i + 1);
        if i < m {
            assert(b.subrange(0, m)[i] == b[i]);
        }
    }
}

proof fn lemma_field_len_prefix(b: Seq<u8>, m: int, i: int, nibble: int)
    requires
        0 <= m <= b.len(),
        0 <= i <= m,
    ensures
        field_len(b, i, nibble) matches Some((a, k)) ==> field_len(b.subrange(0, m), i, nibble)
            == if k <= m {
            Some((a, k))
        } else {
            None
        },
        field_len(b, i, nibble) is None ==> field_len(b.subrange(0, m), i, nibble) is None,
{
    lemma_ext_len_prefix(b, m, i);
}

proof fn lemma_decode_grows(b: Seq<u8>, i: int, out: Seq<u8>)
    ensures
        decode_from(b, i, out) matches Ok(s) ==> s.len() >= out.len(),
    decreases b.len() - i,
{
    if 0 <= i < b.len() {
        let token = b[i];
        lemma_field_len_bounds(b, i + 1, (token / 16) as int);
        if let Some((ll, i2)) = field_len(b, i + 1, (token / 16) as int) {
            let i3 = i2 + ll;
            lemma_field_len_bounds(b, i3 + 2, (token % 16) as int);
            if i3 + 2 <= b.len() {
                let out2 = out + b.subrange(i2, i3);
                let off = offset_at(b, i3);
                if let Some((ml, i5)) = field_len(b, i3 + 2, (token % 16) as int) {
                    lemma_copy_match_len(out2, off, (ml + 4) as nat);
                    lemma_decode_grows(b, i5, copy_match(out2, off, (ml + 4) as nat));
                }
            }
        }
    }
}

proof fn lemma_decode_prefix(b: Seq<u8>, m: int, i: int, out: Seq<u8>)
    requires
        0 <= i <= m < b.len(),
        decode_from(b, i, out) is Ok,
        !ends_in_empty_record(b, i),
    ensures
        decode_from(b.subrange(0, m), i, out) matches Ok(s2) ==> s2.len() < decode_from(
            b,
            i,
            out,
        )->Ok_0.len(),
    decreases b.len() - i,
{
    let bp = b.subrange(0, m);
    let token = b[i];
    lemma_field_len_bounds(b, i + 1, (token / 16) as int);
    lemma_decode_grows(b, i, out);
    if let Some((ll, i2)) = field_len(b, i + 1, (token / 16) as int) {
        let i3 = i2 + ll;
        let out2 = out + b.subrange(i2, i3);
        lemma_field_len_bounds(b, i3 + 2, (token % 16) as int);
        if i == m {
            if i3 == b.len() {
                assert(ll != 0 || i2 != b.len());
                assert(ll > 0);
            } else {
                let off = offset_at(b, i3);
                if let Some((ml, i5)) = field_len(b, i3 + 2, (token % 16) as int) {
                    lemma_copy_match_len(out2, off, (ml + 4) as nat);
                    lemma_decode_grows(b, i5, copy_match(out2, off, (ml + 4) as nat));
                }
            }
        } else {
            assert(bp[i] == token);
            lemma_field_len_prefix(b, m, i + 1, (token / 16) as int);
            if i2 <= m && i3 <= m {
                assert(bp.subrange(i2, i3) =~= b.subrange(i2, i3));
                if i3 == m {
                    let off = offset_at(b, i3);
                    if let Some((ml, i5)) = field_len(b, i3 + 2, (token % 16) as int) {
                        lemma_copy_match_len(out2, off, (ml + 4) as nat);
                        lemma_decode_grows(b, i5, copy_match(out2, off, (ml + 4) as nat));
                    }
                } else if i3 + 2 <= m {
                    assert(bp[i3] == b[i3]);
                    assert(bp[i3 + 1] == b[i3 + 1]);
                    let off = offset_at(b, i3);
                    lemma_field_len_prefix(b, m, i3 + 2, (token % 16) as int);
                    if let Some((ml, i5)) = field_len(b, i3 + 2, (token % 16) as int) {
                        if i5 <= m {
                            lemma_decode_prefix(
                                b,
                                m,
                                i5,
                                copy_match(out2, off, (ml + 4) as nat),
                            );
                        }
                    }
                }
            }
        }
    }
}

/// Truncation is refused: cutting a container that decodes at any byte
/// before its end gives a container that fails to decode, unless the block
/// ended in a record that produced nothing.
pub proof fn lemma_truncation_refused(c: Seq<u8>, k: int)
    requires
        decode_container(c) is Ok,
        0 <= k < c.len(),
        !ends_in_empty_record(payload(c), 0),
    ensures
        decode_container(c.subrange(0, k)) is Err,
{
    let t = c.subrange(0, k);
    if k >= HEADER_LENGTH {
        let b = payload(c);
        let m = k - HEADER_LENGTH;
        assert(t.subrange(0, MAGIC_HEADER_LENGTH as int) =~= c.subrange(
            0,
            MAGIC_HEADER_LENGTH as int,
        ));
        assert(payload(t) =~= b.subrange(0, m));
        assert(le32_at(t, MAGIC_HEADER_LENGTH as int) == le32_at(c, MAGIC_HEADER_LENGTH as int));
        lemma_decode_prefix(b, m, 0, Seq::empty());
    }
}

} // verus!
