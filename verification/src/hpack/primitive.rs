//! HPACK integer and string literal primitives (RFC 7541 §5.1, §5.2).
use crate::error::{ErrorCode, H2Error, Result};
use crate::hpack::huffman;
use crate::hpack::huffman::{huffman_decoding, huffman_encoding, huffman_error, symbol_bits};
use vstd::arithmetic::power2::*;
use vstd::bits::lemma_u64_shl_is_mul;
use vstd::prelude::*;

verus! {

/// Guard against the "integer overflow via unbounded continuation bytes"
/// attack noted in RFC 7541 §7: cap how many continuation octets we'll read.
pub const MAX_CONTINUATION_BYTES: usize = 10;

/// The largest value that fits in an N-bit prefix, `2^N - 1`, for the
/// prefix widths that HPACK uses.
pub open spec fn prefix_max(prefix_bits: u8) -> u64 {
    if prefix_bits == 1 {
        1
    } else if prefix_bits == 2 {
        3
    } else if prefix_bits == 3 {
        7
    } else if prefix_bits == 4 {
        15
    } else if prefix_bits == 5 {
        31
    } else if prefix_bits == 6 {
        63
    } else if prefix_bits == 7 {
        127
    } else {
        255
    }
}

/// The continuation octets that carry `r` once the prefix is full: seven
/// bits per octet, least significant group first, with the top bit set on
/// every octet but the last.
pub open spec fn continuation_bytes(r: nat) -> Seq<u8>
    decreases r,
{
    if r < 128 {
        seq![r as u8]
    } else {
        seq![(r % 128 + 128) as u8] + continuation_bytes(r / 128)
    }
}

/// The N-bit-prefix encoding of `value` (RFC 7541 §5.1), with
/// `prefix_pattern` OR-ed into the first octet.
pub open spec fn integer_bytes(prefix_bits: u8, prefix_pattern: u8, value: u64) -> Seq<u8> {
    let m = prefix_max(prefix_bits);
    if value < m {
        seq![prefix_pattern | (value as u8)]
    } else {
        seq![prefix_pattern | (m as u8)] + continuation_bytes((value - m) as nat)
    }
}

/// Reading continuation octets from `buf` at `consumed`, with `value`
/// accumulated so far and `shift` the bit position of the next group.
pub open spec fn decode_continuation(buf: Seq<u8>, consumed: int, value: u64, shift: u64) -> Result<
    (u64, usize),
>
    decreases 11 - consumed,
{
    if consumed > MAX_CONTINUATION_BYTES {
        Err(H2Error::Connection(ErrorCode::CompressionError, "HPACK integer continuation too long"))
    } else if consumed >= buf.len() {
        Err(H2Error::Incomplete)
    } else {
        let b = buf[consumed];
        let term = ((b & 0x7f) as u64) << shift;
        if value + term > u64::MAX {
            Err(H2Error::Connection(ErrorCode::CompressionError, "HPACK integer overflow"))
        } else if b & 0x80 == 0 {
            Ok(((value + term) as u64, (consumed + 1) as usize))
        } else {
            decode_continuation(buf, consumed + 1, (value + term) as u64, (shift + 7) as u64)
        }
    }
}

/// What decoding an N-bit-prefixed integer from the front of `buf` gives:
/// the value and the number of octets it took, or the error.
pub open spec fn decode_integer_result(buf: Seq<u8>, prefix_bits: u8) -> Result<(u64, usize)> {
    if buf.len() == 0 {
        Err(H2Error::Incomplete)
    } else {
        let m = prefix_max(prefix_bits);
        let prefix = (buf[0] as u64) & m;
        if prefix < m {
            Ok((prefix, 1usize))
        } else {
            decode_continuation(buf, 1, m, 0)
        }
    }
}

proof fn lemma_prefix_mask(prefix_bits: u8)
    requires
        1 <= prefix_bits <= 8,
    ensures
        (1u64 << prefix_bits) - 1 == prefix_max(prefix_bits),
        prefix_max(prefix_bits) <= 255,
        prefix_max(prefix_bits) >= 1,
{
    let n = prefix_bits;
    assert(1 <= n <= 8 ==> (1u64 << n) - 1 == (if n == 1 {
        1u64
    } else if n == 2 {
        3u64
    } else if n == 3 {
        7u64
    } else if n == 4 {
        15u64
    } else if n == 5 {
        31u64
    } else if n == 6 {
        63u64
    } else if n == 7 {
        127u64
    } else {
        255u64
    })) by (bit_vector);
}

/// Encode `value` using an N-bit prefix (RFC 7541 §5.1). `prefix_pattern`
/// is the flag bits for this representation already shifted into the top
/// `8 - prefix_bits` bits, with the low `prefix_bits` bits zeroed; the
/// function fills in those low bits (and any continuation bytes needed).
pub fn encode_integer(out: &mut Vec<u8>, prefix_bits: u8, prefix_pattern: u8, value: u64)
    requires
        1 <= prefix_bits <= 8,
    ensures
        final(out)@ == old(out)@ + integer_bytes(prefix_bits, prefix_pattern, value),
{
    proof {
        lemma_prefix_mask(prefix_bits);
    }
    let max_prefix: u64 = (1u64 << prefix_bits) - 1;
    if value < max_prefix {
        out.push(prefix_pattern | value as u8);
        return ;
    }
    let ghost before = out@;
    out.push(prefix_pattern | max_prefix as u8);
    let mut remaining: u64 = value - max_prefix;
    let ghost start = out@;
    while remaining >= 128
        invariant
            start + continuation_bytes((value - max_prefix) as nat) == out@
                + continuation_bytes(remaining as nat),
        decreases remaining,
    {
        let byte: u8 = ((remaining % 128) as u8) | 0x80;
        assert(((remaining % 128) as u8) | 0x80 == (remaining % 128 + 128) as u8) by (bit_vector);
        out.push(byte);
        remaining = remaining / 128;
    }
    out.push(remaining as u8);
    proof {
        assert(continuation_bytes(remaining as nat) == seq![remaining as u8]);
        assert(start == before + seq![prefix_pattern | (max_prefix as u8)]);
        assert(out@ == start + continuation_bytes((value - max_prefix) as nat));
    }
}

/// Decode an N-bit-prefixed integer. Returns `(value, bytes_consumed)`.
pub fn decode_integer(buf: &[u8], prefix_bits: u8) -> (r: Result<(u64, usize)>)
    requires
        1 <= prefix_bits <= 8,
    ensures
        r == decode_integer_result(buf@, prefix_bits),
{
    if buf.len() == 0 {
        return Err(H2Error::Incomplete);
    }
    proof {
        lemma_prefix_mask(prefix_bits);
    }
    let max_prefix: u64 = (1u64 << prefix_bits) - 1;
    let prefix: u64 = buf[0] as u64 & max_prefix;
    if prefix < max_prefix {
        return Ok((prefix, 1));
    }
    let mut value: u64 = max_prefix;
    let mut m: u64 = 0;
    let mut consumed: usize = 1;
    loop
        invariant
            1 <= consumed <= 11,
            m == 7 * (consumed - 1),
            decode_integer_result(buf@, prefix_bits) == decode_continuation(
                buf@,
                consumed as int,
                value,
                m,
            ),
        decreases 11 - consumed,
    {
        if consumed > MAX_CONTINUATION_BYTES {
            return Err(
                H2Error::Connection(ErrorCode::CompressionError, "HPACK integer continuation too long"),
            );
        }
        if consumed >= buf.len() {
            return Err(H2Error::Incomplete);
        }
        let b = buf[consumed];
        consumed += 1;
        let term: u64 = ((b & 0x7f) as u64) << m;
        match value.checked_add(term) {
            Some(v) => {
                value = v;
            },
            None => {
                return Err(H2Error::Connection(ErrorCode::CompressionError, "HPACK integer overflow"));
            },
        }
        if b & 0x80 == 0 {
            return Ok((value, consumed));
        }
        m += 7;
    }
}

proof fn lemma_continuation_len(r: nat, k: nat)
    requires
        k >= 1,
        r < pow2(7 * k),
    ensures
        1 <= continuation_bytes(r).len() <= k,
    decreases r,
{
    if r >= 128 {
        lemma2_to64();
        if k == 1 {
            assert(false);
        }
        lemma_pow2_adds(7 * (k - 1) as nat, 7);
        assert(pow2(7 * k) == pow2(7 * (k - 1) as nat) * 128);
        assert(r / 128 < pow2(7 * (k - 1) as nat)) by (nonlinear_arith)
            requires
                r < pow2(7 * (k - 1) as nat) * 128,
        ;
        lemma_continuation_len(r / 128, (k - 1) as nat);
    }
}

/// Every value of a `u64` fits in at most ten continuation octets.
proof fn lemma_continuation_len_u64(r: nat)
    requires
        r <= u64::MAX,
    ensures
        1 <= continuation_bytes(r).len() <= 10,
{
    lemma2_to64();
    lemma_pow2_adds(64, 6);
    lemma_continuation_len(r, 10);
}

proof fn lemma_continuation_decode(buf: Seq<u8>, consumed: int, acc: u64, r: nat)
    requires
        1 <= consumed,
        consumed + continuation_bytes(r).len() <= 11,
        consumed + continuation_bytes(r).len() <= buf.len(),
        buf.subrange(consumed, consumed + continuation_bytes(r).len()) == continuation_bytes(r),
        acc + r * pow2((7 * (consumed - 1)) as nat) <= u64::MAX,
    ensures
        decode_continuation(buf, consumed, acc, (7 * (consumed - 1)) as u64) == Ok::<
            (u64, usize),
            H2Error,
        >(
            (
                (acc + r * pow2((7 * (consumed - 1)) as nat)) as u64,
                (consumed + continuation_bytes(r).len()) as usize,
            ),
        ),
    decreases r,
{
    let s: u64 = (7 * (consumed - 1)) as u64;
    let p = pow2(s as nat);
    let cb = continuation_bytes(r);
    assert(buf[consumed] == cb[0]);
    lemma_pow2_pos(s as nat);
    if r < 128 {
        let b = r as u8;
        assert(b < 128 ==> b & 0x7f == b && b & 0x80 == 0) by (bit_vector);
        assert(r * p <= u64::MAX);
        lemma_u64_shl_is_mul(b as u64, s);
    } else {
        let b = (r % 128 + 128) as u8;
        let lo = (r % 128) as u8;
        assert(lo < 128 ==> ((lo + 128) as u8) & 0x7f == lo && ((lo + 128) as u8) & 0x80 != 0)
            by (bit_vector);
        assert(b & 0x7f == lo);
        assert((r % 128) * p <= r * p) by (nonlinear_arith)
            requires
                p > 0,
        ;
        lemma_u64_shl_is_mul(lo as u64, s);
        let acc2 = (acc + (r % 128) * p) as u64;
        lemma2_to64();
        lemma_pow2_adds(s as nat, 7);
        assert(pow2((7 * (consumed + 1 - 1)) as nat) == p * 128);
        assert(acc2 + (r / 128) * (p * 128) == acc + r * p) by (nonlinear_arith)
            requires
                acc2 == acc + (r % 128) * p,
                r == 128 * (r / 128) + r % 128,
        ;
        let rest = continuation_bytes(r / 128);
        assert(cb == seq![b] + rest);
        assert(buf.subrange(consumed + 1, consumed + 1 + rest.len()) == rest) by {
            assert forall|i: int| 0 <= i < rest.len() implies buf.subrange(
                consumed + 1,
                consumed + 1 + rest.len(),
            )[i] == rest[i] by {
                assert(buf.subrange(consumed, consumed + cb.len())[i + 1] == cb[i + 1]);
            }
        }
        lemma_continuation_decode(buf, consumed + 1, acc2, r / 128);
    }
}

/// Decoding what `encode_integer` wrote gives the value back and says how
/// many octets it took, whatever follows it, for every `u64` and every
/// prefix width, provided the flag bits leave the prefix bits clear.
pub proof fn lemma_integer_roundtrip(prefix_bits: u8, prefix_pattern: u8, value: u64, rest: Seq<u8>)
    requires
        1 <= prefix_bits <= 8,
        prefix_pattern & (prefix_max(prefix_bits) as u8) == 0,
    ensures
        decode_integer_result(integer_bytes(prefix_bits, prefix_pattern, value) + rest, prefix_bits)
            == Ok::<(u64, usize), H2Error>(
            (value, integer_bytes(prefix_bits, prefix_pattern, value).len() as usize),
        ),
        1 <= integer_bytes(prefix_bits, prefix_pattern, value).len() <= 11,
{
    let m = prefix_max(prefix_bits);
    let enc = integer_bytes(prefix_bits, prefix_pattern, value);
    let buf = enc + rest;
    let p = prefix_pattern;
    assert(m == 1 || m == 3 || m == 7 || m == 15 || m == 31 || m == 63 || m == 127 || m == 255);
    if value < m {
        let v = value as u8;
        assert((m == 1 || m == 3 || m == 7 || m == 15 || m == 31 || m == 63 || m == 127 || m
            == 255) && p & (m as u8) == 0 && v < m ==> ((p | v) as u64) & m == v as u64)
            by (bit_vector);
        assert(buf[0] == p | v);
    } else {
        let mb = m as u8;
        assert((m == 1 || m == 3 || m == 7 || m == 15 || m == 31 || m == 63 || m == 127 || m
            == 255) && p & (m as u8) == 0 ==> ((p | (m as u8)) as u64) & m == m) by (bit_vector);
        assert(buf[0] == p | mb);
        let r = (value - m) as nat;
        lemma_continuation_len_u64(r);
        let cb = continuation_bytes(r);
        assert(enc == seq![p | mb] + cb);
        assert(buf.subrange(1, 1 + cb.len() as int) == cb) by {
            assert forall|i: int| 0 <= i < cb.len() implies buf.subrange(1, 1 + cb.len() as int)[i]
                == cb[i] by {
                assert(buf[1 + i] == enc[1 + i]);
            }
        }
        lemma2_to64();
        assert(pow2(0) == 1);
        assert(r * pow2(0) == r);
        assert((7 * (1 - 1)) as nat == 0);
        lemma_continuation_decode(buf, 1, m, r);
        assert(decode_integer_result(buf, prefix_bits) == decode_continuation(buf, 1, m, 0));
    }
}


proof fn lemma_continuation_incomplete(buf: Seq<u8>, consumed: int, acc: u64, r: nat)
    requires
        1 <= consumed <= buf.len(),
        consumed + continuation_bytes(r).len() <= 11,
        buf.len() < consumed + continuation_bytes(r).len(),
        buf.subrange(consumed, buf.len() as int) == continuation_bytes(r).take(
            buf.len() - consumed,
        ),
        acc + r * pow2((7 * (consumed - 1)) as nat) <= u64::MAX,
    ensures
        decode_continuation(buf, consumed, acc, (7 * (consumed - 1)) as u64) == Err::<
            (u64, usize),
            H2Error,
        >(H2Error::Incomplete),
    decreases r,
{
    let s: u64 = (7 * (consumed - 1)) as u64;
    let p = pow2(s as nat);
    let cb = continuation_bytes(r);
    lemma_pow2_pos(s as nat);
    if consumed < buf.len() {
        assert(buf[consumed] == buf.subrange(consumed, buf.len() as int)[0]);
        assert(buf[consumed] == cb[0]);
        // A single continuation octet would be the whole rest of the encoding.
        assert(r >= 128);
        let b = (r % 128 + 128) as u8;
        let lo = (r % 128) as u8;
        assert(lo < 128 ==> ((lo + 128) as u8) & 0x7f == lo && ((lo + 128) as u8) & 0x80 != 0)
            by (bit_vector);
        assert(b & 0x7f == lo);
        assert((r % 128) * p <= r * p) by (nonlinear_arith)
            requires
                p > 0,
        ;
        lemma_u64_shl_is_mul(lo as u64, s);
        let acc2 = (acc + (r % 128) * p) as u64;
        lemma2_to64();
        lemma_pow2_adds(s as nat, 7);
        assert(pow2((7 * (consumed + 1 - 1)) as nat) == p * 128);
        assert(acc2 + (r / 128) * (p * 128) == acc + r * p) by (nonlinear_arith)
            requires
                acc2 == acc + (r % 128) * p,
                r == 128 * (r / 128) + r % 128,
        ;
        let rest = continuation_bytes(r / 128);
        assert(cb == seq![b] + rest);
        assert(buf.subrange(consumed + 1, buf.len() as int) =~= rest.take(
            buf.len() - consumed - 1,
        )) by {
            assert forall|i: int| 0 <= i < buf.len() - consumed - 1 implies buf.subrange(
                consumed + 1,
                buf.len() as int,
            )[i] == rest[i] by {
                assert(buf.subrange(consumed, buf.len() as int)[i + 1] == cb[i + 1]);
            }
        }
        lemma_continuation_incomplete(buf, consumed + 1, acc2, r / 128);
    }
}

/// Every proper prefix of an encoded integer, the empty one included, is
/// too short to decode.
pub proof fn lemma_integer_prefix_incomplete(
    prefix_bits: u8,
    prefix_pattern: u8,
    value: u64,
    k: int,
)
    requires
        1 <= prefix_bits <= 8,
        prefix_pattern & (prefix_max(prefix_bits) as u8) == 0,
        0 <= k < integer_bytes(prefix_bits, prefix_pattern, value).len(),
    ensures
        decode_integer_result(integer_bytes(prefix_bits, prefix_pattern, value).take(k), prefix_bits)
            == Err::<(u64, usize), H2Error>(H2Error::Incomplete),
{
    let m = prefix_max(prefix_bits);
    let enc = integer_bytes(prefix_bits, prefix_pattern, value);
    let q = enc.take(k);
    let p = prefix_pattern;
    lemma_integer_roundtrip(prefix_bits, prefix_pattern, value, Seq::empty());
    if k > 0 {
        assert(value >= m);
        assert(m == 1 || m == 3 || m == 7 || m == 15 || m == 31 || m == 63 || m == 127 || m
            == 255);
        let mb = m as u8;
        assert((m == 1 || m == 3 || m == 7 || m == 15 || m == 31 || m == 63 || m == 127 || m
            == 255) && p & (m as u8) == 0 ==> ((p | (m as u8)) as u64) & m == m) by (bit_vector);
        assert(q[0] == p | mb);
        let r = (value - m) as nat;
        lemma_continuation_len_u64(r);
        let cb = continuation_bytes(r);
        assert(enc == seq![p | mb] + cb);
        assert(q.subrange(1, q.len() as int) =~= cb.take(q.len() - 1));
        lemma2_to64();
        assert(pow2(0) == 1);
        assert(r * pow2(0) == r);
        assert((7 * (1 - 1)) as nat == 0);
        lemma_continuation_incomplete(q, 1, m, r);
    }
}

/// Whether the Huffman encoding of `s` is strictly shorter than `s`, the
/// rule by which string literals choose Huffman coding (RFC 7541 §5.2).
pub open spec fn prefers_huffman(s: Seq<u8>) -> bool {
    (symbol_bits(s).len() + 7) / 8 < s.len()
}

/// The string literal representation of `s`: a 7-bit-prefixed length with
/// the H flag, then the octets, Huffman-coded when that is shorter.
pub open spec fn string_bytes(s: Seq<u8>) -> Seq<u8> {
    if prefers_huffman(s) {
        integer_bytes(7, 0x80, huffman_encoding(s).len() as u64) + huffman_encoding(s)
    } else {
        integer_bytes(7, 0x00, s.len() as u64) + s
    }
}

/// What decoding a string literal from the front of `buf` gives: the octets
/// and the number of octets of `buf` it took, or the error.
pub open spec fn decode_string_result(buf: Seq<u8>) -> Result<(Seq<u8>, usize)> {
    if buf.len() == 0 {
        Err(H2Error::Incomplete)
    } else {
        match decode_integer_result(buf, 7) {
            Err(e) => Err(e),
            Ok((len, len_bytes)) => {
                let end = len_bytes + (len as usize);
                if end > usize::MAX {
                    Err(
                        H2Error::Connection(
                            ErrorCode::CompressionError,
                            "HPACK string length overflow",
                        ),
                    )
                } else if buf.len() < end {
                    Err(H2Error::Incomplete)
                } else {
                    let raw = buf.subrange(len_bytes as int, end);
                    if buf[0] & 0x80 != 0 {
                        match huffman_decoding(raw) {
                            Some(data) => Ok((data, end as usize)),
                            None => Err(huffman_error()),
                        }
                    } else {
                        Ok((raw, end as usize))
                    }
                }
            },
        }
    }
}

/// Append the octets of `s` to `out`.
pub(crate) fn append_bytes(out: &mut Vec<u8>, s: &[u8])
    ensures
        final(out)@ == old(out)@ + s@,
{
    let mut i: usize = 0;
    while i < s.len()
        invariant
            i <= s.len(),
            out@ == old(out)@ + s@.take(i as int),
        decreases s.len() - i,
    {
        out.push(s[i]);
        i = i + 1;
        assert(s@.take(i as int) =~= s@.take(i - 1).push(s@[i - 1]));
    }
    assert(s@.take(i as int) =~= s@);
}

/// Encode a string literal, automatically choosing Huffman coding when it
/// is strictly smaller than the raw bytes (RFC 7541 §5.2).
pub fn encode_string(out: &mut Vec<u8>, s: &[u8])
    requires
        s.len() * 30 <= usize::MAX,
    ensures
        final(out)@ == old(out)@ + string_bytes(s@),
{
    let huff_bits = huffman::encoded_len_bits(s);
    let huff_bytes = huff_bits / 8 + if huff_bits % 8 != 0 {
        1
    } else {
        0
    };
    assert(huff_bytes == (symbol_bits(s@).len() + 7) / 8);
    if huff_bytes < s.len() {
        let encoded = huffman::encode(s);
        encode_integer(out, 7, 0x80, encoded.len() as u64);
        append_bytes(out, encoded.as_slice());
    } else {
        encode_integer(out, 7, 0x00, s.len() as u64);
        append_bytes(out, s);
    }
}

/// Decode a string literal. Returns `(bytes, total_consumed)`.
pub fn decode_string(buf: &[u8]) -> (r: Result<(Vec<u8>, usize)>)
    ensures
        match decode_string_result(buf@) {
            Ok((data, n)) => r matches Ok((v, m)) && v@ == data && m == n,
            Err(e) => r == Err::<(Vec<u8>, usize), H2Error>(e),
        },
{
    if buf.len() == 0 {
        return Err(H2Error::Incomplete);
    }
    let is_huffman = buf[0] & 0x80 != 0;
    let (len, len_bytes) = match decode_integer(buf, 7) {
        Ok(x) => x,
        Err(e) => {
            return Err(e);
        },
    };
    let len = len as usize;
    let end = match len_bytes.checked_add(len) {
        Some(e) => e,
        None => {
            return Err(
                H2Error::Connection(ErrorCode::CompressionError, "HPACK string length overflow"),
            );
        },
    };
    if buf.len() < end {
        return Err(H2Error::Incomplete);
    }
    let raw = vstd::slice::slice_subrange(buf, len_bytes, end);
    let data = if is_huffman {
        match huffman::decode(raw) {
            Ok(d) => d,
            Err(e) => {
                return Err(e);
            },
        }
    } else {
        let mut v: Vec<u8> = Vec::new();
        append_bytes(&mut v, raw);
        v
    };
    Ok((data, end))
}

/// Decoding a string literal written by `encode_string` gives the octets
/// back and says how many octets the literal took, whatever follows it.
pub proof fn lemma_string_roundtrip(s: Seq<u8>, rest: Seq<u8>)
    requires
        string_bytes(s).len() <= usize::MAX,
    ensures
        decode_string_result(string_bytes(s) + rest) == Ok::<(Seq<u8>, usize), H2Error>(
            (s, string_bytes(s).len() as usize),
        ),
{
    let enc = string_bytes(s);
    let buf = enc + rest;
    let (pattern, payload) = if prefers_huffman(s) {
        (0x80u8, huffman_encoding(s))
    } else {
        (0x00u8, s)
    };
    let n = payload.len() as u64;
    let ib = integer_bytes(7, pattern, n);
    assert(enc == ib + payload);
    assert(pattern & (prefix_max(7) as u8) == 0) by (bit_vector)
        requires
            pattern == 0x80u8 || pattern == 0u8,
    ;
    lemma_integer_roundtrip(7, pattern, n, payload + rest);
    assert(buf =~= ib + (payload + rest));
    assert(buf.subrange(ib.len() as int, (ib.len() + payload.len()) as int) =~= payload);
    let b0 = buf[0];
    assert(b0 == ib[0]);
    if prefers_huffman(s) {
        let m = if n < 127 {
            n as u8
        } else {
            127u8
        };
        assert(ib[0] == 0x80u8 | m);
        assert(m <= 127 ==> (0x80u8 | m) & 0x80 != 0) by (bit_vector);
        huffman::lemma_huffman_roundtrip(s);
    } else {
        let m = if n < 127 {
            n as u8
        } else {
            127u8
        };
        assert(ib[0] == 0x00u8 | m);
        assert(m <= 127 ==> (0x00u8 | m) & 0x80 == 0) by (bit_vector);
    }
}


/// Every proper prefix of an encoded string literal, the empty one
/// included, is too short to decode.
pub proof fn lemma_string_prefix_incomplete(s: Seq<u8>, k: int)
    requires
        string_bytes(s).len() <= usize::MAX,
        0 <= k < string_bytes(s).len(),
    ensures
        decode_string_result(string_bytes(s).take(k)) == Err::<(Seq<u8>, usize), H2Error>(
            H2Error::Incomplete,
        ),
{
    let enc = string_bytes(s);
    let q = enc.take(k);
    let (pattern, payload) = if prefers_huffman(s) {
        (0x80u8, huffman_encoding(s))
    } else {
        (0x00u8, s)
    };
    let n = payload.len() as u64;
    let ib = integer_bytes(7, pattern, n);
    assert(enc == ib + payload);
    assert(pattern & (prefix_max(7) as u8) == 0) by (bit_vector)
        requires
            pattern == 0x80u8 || pattern == 0u8,
    ;
    lemma_integer_roundtrip(7, pattern, n, Seq::empty());
    if k < ib.len() {
        lemma_integer_prefix_incomplete(7, pattern, n, k);
        assert(q =~= ib.take(k));
    } else {
        let tail = payload.take(k - ib.len());
        assert(q =~= ib + tail);
        lemma_integer_roundtrip(7, pattern, n, tail);
    }
}

/// A string literal takes the shorter of its two forms: Huffman-coded, with
/// the H flag set, when that is strictly shorter than the raw octets, and
/// raw otherwise; the payload then has the length of the shorter form.
pub proof fn lemma_string_bytes_shortest(s: Seq<u8>)
    ensures
        prefers_huffman(s) ==> huffman_encoding(s).len() < s.len() && string_bytes(s)
            == integer_bytes(7, 0x80, huffman_encoding(s).len() as u64) + huffman_encoding(s),
        !prefers_huffman(s) ==> s.len() <= huffman_encoding(s).len() && string_bytes(s)
            == integer_bytes(7, 0x00, s.len() as u64) + s,
        (string_bytes(s)[0] & 0x80 != 0) == prefers_huffman(s),
        huffman_encoding(s).len() == (symbol_bits(s).len() + 7) / 8,
{
    huffman::lemma_huffman_encoding_len(s);
    let (pattern, payload) = if prefers_huffman(s) {
        (0x80u8, huffman_encoding(s))
    } else {
        (0x00u8, s)
    };
    let n = payload.len() as u64;
    let ib = integer_bytes(7, pattern, n);
    let m = if n < 127 {
        n as u8
    } else {
        127u8
    };
    assert(ib[0] == pattern | m);
    assert(m <= 127 ==> (0x80u8 | m) & 0x80 != 0 && (0x00u8 | m) & 0x80 == 0) by (bit_vector);
    assert(string_bytes(s)[0] == ib[0]);
}

proof fn lemma_continuation_extend(buf: Seq<u8>, rest: Seq<u8>, consumed: int, value: u64, shift: u64)
    requires
        consumed >= 0,
        decode_continuation(buf, consumed, value, shift) is Ok,
    ensures
        decode_continuation(buf + rest, consumed, value, shift) == decode_continuation(
            buf,
            consumed,
            value,
            shift,
        ),
    decreases 11 - consumed,
{
    if consumed <= MAX_CONTINUATION_BYTES && consumed < buf.len() {
        let b = buf[consumed];
        assert((buf + rest)[consumed] == b);
        let term = ((b & 0x7f) as u64) << shift;
        if value + term <= u64::MAX && b & 0x80 != 0 {
            lemma_continuation_extend(buf, rest, consumed + 1, (value + term) as u64, (shift + 7) as u64);
        }
    }
}

/// An integer that decodes from `buf` decodes the same, taking the same
/// octets, whatever follows `buf`.
pub proof fn lemma_integer_extend(buf: Seq<u8>, rest: Seq<u8>, prefix_bits: u8)
    requires
        decode_integer_result(buf, prefix_bits) is Ok,
    ensures
        decode_integer_result(buf + rest, prefix_bits) == decode_integer_result(buf, prefix_bits),
{
    assert((buf + rest)[0] == buf[0]);
    let m = prefix_max(prefix_bits);
    if (buf[0] as u64) & m >= m {
        lemma_continuation_extend(buf, rest, 1, m, 0);
    }
}

/// A string literal that decodes from `buf` decodes the same, taking the
/// same octets, whatever follows `buf`.
pub proof fn lemma_string_extend(buf: Seq<u8>, rest: Seq<u8>)
    requires
        decode_string_result(buf) is Ok,
    ensures
        decode_string_result(buf + rest) == decode_string_result(buf),
{
    lemma_integer_extend(buf, rest, 7);
    assert((buf + rest)[0] == buf[0]);
    let (len, len_bytes) = decode_integer_result(buf, 7)->Ok_0;
    let end = len_bytes + (len as usize);
    assert((buf + rest).subrange(len_bytes as int, end) =~= buf.subrange(len_bytes as int, end));
}

proof fn lemma_decode_continuation_len(buf: Seq<u8>, consumed: int, value: u64, shift: u64)
    requires
        consumed >= 1,
    ensures
        decode_continuation(buf, consumed, value, shift) matches Ok((_, n)) ==> consumed < n
            <= buf.len(),
    decreases 11 - consumed,
{
    if consumed <= MAX_CONTINUATION_BYTES && consumed < buf.len() {
        let b = buf[consumed];
        let term = ((b & 0x7f) as u64) << shift;
        if value + term <= u64::MAX && b & 0x80 != 0 {
            lemma_decode_continuation_len(buf, consumed + 1, (value + term) as u64, (shift + 7) as u64);
        }
    }
}

/// A decoded integer takes at least one octet and no more than there are.
pub proof fn lemma_decode_integer_len(buf: Seq<u8>, prefix_bits: u8)
    ensures
        decode_integer_result(buf, prefix_bits) matches Ok((_, n)) ==> 1 <= n <= buf.len(),
{
    if buf.len() > 0 {
        lemma_decode_continuation_len(buf, 1, prefix_max(prefix_bits), 0);
    }
}

/// A decoded string literal takes at least one octet and no more than
/// there are.
pub proof fn lemma_decode_string_len(buf: Seq<u8>)
    ensures
        decode_string_result(buf) matches Ok((_, n)) ==> 1 <= n <= buf.len(),
{
    lemma_decode_integer_len(buf, 7);
}

} // verus!
