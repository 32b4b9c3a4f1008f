//! What decoding gives back of what encoding wrote.
use crate::hpack::decoder::{
    decode_block_from, decode_literal_result, lemma_decode_block_append, lookup_result,
};
use crate::hpack::dynamic_table::{
    entries_size, lemma_entries_count, lemma_table_fits, table_insert, table_set_max_size,
    TableView,
};
use crate::hpack::encoder::{
    encode_block, encode_field, encode_fields, exact_index, literal_bytes, name_index,
    EncoderView,
};
use crate::hpack::huffman::{huffman_encoding, lemma_huffman_encoding_len, symbol_bits};
use crate::hpack::primitive::{
    decode_integer_result, decode_string_result, integer_bytes, lemma_integer_roundtrip,
    lemma_string_roundtrip, prefix_max, string_bytes,
};
use crate::hpack::static_table::{lemma_table_find_index, static_entries, table_find, STATIC_TABLE_LEN};
use crate::hpack::HeaderFieldView;
use vstd::prelude::*;

verus! {

/// A dynamic table whose sizes fit the machine: its maximum size fits in a
/// `usize` and its entries fit within its maximum size.
pub open spec fn table_fits(t: TableView) -> bool {
    t.max_size <= usize::MAX && entries_size(t.entries) <= t.max_size
}

/// Whether every name and value of `hs` leaves room in a `usize` for the
/// length prefix of its string literal.
pub open spec fn fields_short(hs: Seq<HeaderFieldView>) -> bool {
    forall|i: int|
        #![trigger hs[i]]
        0 <= i < hs.len() ==> hs[i].name.len() + 11 <= usize::MAX && hs[i].value.len() + 11
            <= usize::MAX
}

proof fn lemma_string_bytes_len(s: Seq<u8>)
    ensures
        string_bytes(s).len() <= s.len() + 11,
{
    lemma_patterns();
    assert(0x00u8 & 127u8 == 0) by (bit_vector);
    if crate::hpack::primitive::prefers_huffman(s) {
        lemma_huffman_encoding_len(s);
        lemma_integer_roundtrip(7, 0x80, huffman_encoding(s).len() as u64, Seq::empty());
    } else {
        lemma_integer_roundtrip(7, 0x00, s.len() as u64, Seq::empty());
    }
}

proof fn lemma_first_byte(prefix_bits: u8, prefix_pattern: u8, value: u64)
    requires
        1 <= prefix_bits <= 8,
    ensures
        ({
            let m = prefix_max(prefix_bits);
            let low = if value < m {
                value as u8
            } else {
                m as u8
            };
            &&& integer_bytes(prefix_bits, prefix_pattern, value)[0] == prefix_pattern | low
            &&& low <= m
        }),
{
}

proof fn lemma_flag_bits(x: u8)
    ensures
        x <= 127 ==> (0x80u8 | x) & 0x80 != 0,
        x <= 63 ==> (0x40u8 | x) & 0x80 == 0 && (0x40u8 | x) & 0x40 != 0,
        x <= 31 ==> (0x20u8 | x) & 0x80 == 0 && (0x20u8 | x) & 0x40 == 0 && (0x20u8 | x) & 0x20
            != 0,
        x <= 15 ==> (0x10u8 | x) & 0x80 == 0 && (0x10u8 | x) & 0x40 == 0 && (0x10u8 | x) & 0x20
            == 0 && (0x10u8 | x) & 0x10 != 0,
{
    assert(x <= 127 ==> (0x80u8 | x) & 0x80 != 0) by (bit_vector);
    assert(x <= 63 ==> (0x40u8 | x) & 0x80 == 0 && (0x40u8 | x) & 0x40 != 0) by (bit_vector);
    assert(x <= 31 ==> (0x20u8 | x) & 0x80 == 0 && (0x20u8 | x) & 0x40 == 0 && (0x20u8 | x) & 0x20
        != 0) by (bit_vector);
    assert(x <= 15 ==> (0x10u8 | x) & 0x80 == 0 && (0x10u8 | x) & 0x40 == 0 && (0x10u8 | x) & 0x20
        == 0 && (0x10u8 | x) & 0x10 != 0) by (bit_vector);
}

proof fn lemma_patterns()
    ensures
        0x80u8 & (prefix_max(7) as u8) == 0,
        0x40u8 & (prefix_max(6) as u8) == 0,
        0x20u8 & (prefix_max(5) as u8) == 0,
        0x10u8 & (prefix_max(4) as u8) == 0,
{
    assert(0x80u8 & 127u8 == 0) by (bit_vector);
    assert(0x40u8 & 63u8 == 0) by (bit_vector);
    assert(0x20u8 & 31u8 == 0) by (bit_vector);
    assert(0x10u8 & 15u8 == 0) by (bit_vector);
}

#[verifier::rlimit(60)]
/// Decoding a literal representation that names its field by `name_idx`
/// (or by a string literal when there is none) gives the field back.
proof fn lemma_literal_roundtrip(
    entries: Seq<(Seq<u8>, Seq<u8>)>,
    prefix_bits: u8,
    prefix_pattern: u8,
    name_idx: Option<usize>,
    name: Seq<u8>,
    value: Seq<u8>,
    rest: Seq<u8>,
)
    requires
        1 <= prefix_bits <= 8,
        prefix_pattern & (prefix_max(prefix_bits) as u8) == 0,
        name.len() + 11 <= usize::MAX,
        value.len() + 11 <= usize::MAX,
        name_idx matches Some(i) ==> i >= 1 && (lookup_result(entries, i) matches Ok((n, _)) && n
            == name),
    ensures
        decode_literal_result(
            entries,
            literal_bytes(prefix_bits, prefix_pattern, name_idx, name, value) + rest,
            prefix_bits,
        ) == Ok::<(int, HeaderFieldView), crate::error::H2Error>(
            (
                literal_bytes(prefix_bits, prefix_pattern, name_idx, name, value).len() as int,
                HeaderFieldView { name, value, sensitive: false },
            ),
        ),
{
    let lit = literal_bytes(prefix_bits, prefix_pattern, name_idx, name, value);
    let bytes = lit + rest;
    let sv = string_bytes(value);
    lemma_string_bytes_len(name);
    lemma_string_bytes_len(value);
    lemma_string_roundtrip(value, rest);
    match name_idx {
        Some(i) => {
            let ib = integer_bytes(prefix_bits, prefix_pattern, i as u64);
            assert(lit == ib + sv);
            assert(bytes =~= ib + (sv + rest));
            lemma_integer_roundtrip(prefix_bits, prefix_pattern, i as u64, sv + rest);
            assert(bytes.skip(ib.len() as int) =~= sv + rest);
        },
        None => {
            let ib = integer_bytes(prefix_bits, prefix_pattern, 0);
            let sn = string_bytes(name);
            assert(lit == ib + sn + sv);
            assert(bytes =~= ib + (sn + sv + rest));
            lemma_integer_roundtrip(prefix_bits, prefix_pattern, 0, sn + sv + rest);
            assert(bytes.skip(ib.len() as int) =~= sn + (sv + rest));
            lemma_string_roundtrip(name, sv + rest);
            assert(bytes.skip((ib.len() + sn.len()) as int) =~= sv + rest);
        },
    }
}

proof fn lemma_name_index_lookup(t: TableView, name: Seq<u8>, value: Seq<u8>)
    requires
        table_fits(t),
    ensures
        ({
            let sh = table_find(static_entries(), name, value);
            let dh = table_find(t.entries, name, value);
            &&& name_index(sh, dh) matches Some(i) ==> i >= 1 && (lookup_result(t.entries, i) matches Ok(
                (n, _),
            ) && n == name)
            &&& exact_index(sh, dh) matches Some(i) ==> i >= 1 && lookup_result(t.entries, i)
                == Ok::<(Seq<u8>, Seq<u8>), crate::error::H2Error>((name, value))
            &&& exact_index(sh, dh) is Some ==> name_index(sh, dh) is Some
        }),
{
    lemma_entries_count(t.entries);
    lemma_table_find_index(static_entries(), name, value);
    lemma_table_find_index(t.entries, name, value);
}

#[verifier::rlimit(60)]
/// Decoding the representation of one field, from the same dynamic table
/// that encoded it, gives the field back and leaves the decoder's table as
/// the encoder's.
proof fn lemma_field_roundtrip(
    t: TableView,
    limit: nat,
    h: HeaderFieldView,
    rest: Seq<u8>,
    decoded: Seq<HeaderFieldView>,
)
    requires
        table_fits(t),
        h.name.len() + 11 <= usize::MAX,
        h.value.len() + 11 <= usize::MAX,
    ensures
        decode_block_from(t, limit, encode_field(t, h).0 + rest, decoded) == decode_block_from(
            encode_field(t, h).1,
            limit,
            rest,
            decoded.push(h),
        ),
        table_fits(encode_field(t, h).1),
{
    let sh = table_find(static_entries(), h.name, h.value);
    let dh = table_find(t.entries, h.name, h.value);
    let (bytes, t2) = encode_field(t, h);
    let all = bytes + rest;
    lemma_name_index_lookup(t, h.name, h.value);
    lemma_patterns();
    lemma_table_fits(t, h.name, h.value, 0);
    let ni = name_index(sh, dh);
    if h.sensitive {
        lemma_literal_roundtrip(t.entries, 4, 0x10, ni, h.name, h.value, rest);
        let iv: u64 = match ni {
            Some(i) => i as u64,
            None => 0,
        };
        lemma_first_byte(4, 0x10, iv);
        let m = prefix_max(4);
        lemma_flag_bits(if iv < m {
            iv as u8
        } else {
            m as u8
        });
        assert(bytes == literal_bytes(4, 0x10, ni, h.name, h.value));
        assert(all[0] == bytes[0]);
        assert(all.skip(bytes.len() as int) =~= rest);
    } else {
        match exact_index(sh, dh) {
            Some(idx) => {
                lemma_integer_roundtrip(7, 0x80, idx as u64, rest);
                lemma_first_byte(7, 0x80, idx as u64);
                let m = prefix_max(7);
                lemma_flag_bits(if (idx as u64) < m {
                    idx as u8
                } else {
                    m as u8
                });
                assert(all[0] == bytes[0]);
                assert(all.skip(bytes.len() as int) =~= rest);
                assert(HeaderFieldView { name: h.name, value: h.value, sensitive: false } == h);
            },
            None => {
                lemma_literal_roundtrip(t.entries, 6, 0x40, ni, h.name, h.value, rest);
                let iv: u64 = match ni {
                    Some(i) => i as u64,
                    None => 0,
                };
                lemma_first_byte(6, 0x40, iv);
                let m = prefix_max(6);
                lemma_flag_bits(if iv < m {
                    iv as u8
                } else {
                    m as u8
                });
                assert(bytes == literal_bytes(6, 0x40, ni, h.name, h.value));
                assert(all[0] == bytes[0]);
                assert(all.skip(bytes.len() as int) =~= rest);
            },
        }
    }
}

proof fn lemma_fields_roundtrip(
    t: TableView,
    limit: nat,
    hs: Seq<HeaderFieldView>,
    rest: Seq<u8>,
    decoded: Seq<HeaderFieldView>,
)
    requires
        table_fits(t),
        fields_short(hs),
    ensures
        decode_block_from(t, limit, encode_fields(t, hs).0 + rest, decoded) == decode_block_from(
            encode_fields(t, hs).1,
            limit,
            rest,
            decoded + hs,
        ),
        table_fits(encode_fields(t, hs).1),
    decreases hs.len(),
{
    if hs.len() == 0 {
        assert(Seq::<u8>::empty() + rest =~= rest);
        assert(decoded + hs =~= decoded);
    } else {
        let pre = hs.drop_last();
        let h = hs.last();
        let (b1, t1) = encode_fields(t, pre);
        let (b2, t2) = encode_field(t1, h);
        assert(fields_short(pre)) by {
            assert forall|i: int| 0 <= i < pre.len() implies pre[i].name.len() + 11 <= usize::MAX
                && pre[i].value.len() + 11 <= usize::MAX by {
                assert(pre[i] == hs[i]);
            }
        }
        assert(hs[hs.len() - 1] == h);
        lemma_fields_roundtrip(t, limit, pre, b2 + rest, decoded);
        assert(b1 + b2 + rest =~= b1 + (b2 + rest));
        lemma_field_roundtrip(t1, limit, h, rest, decoded + pre);
        assert((decoded + pre).push(h) =~= decoded + hs);
    }
}

/// Decoding a header block that an encoder wrote, with a decoder whose
/// dynamic table is the encoder's, gives the header list back and leaves
/// the decoder's table as the encoder's, sensitive fields still marked
/// sensitive. This holds when the table fits its maximum size, any pending
/// size update is within the decoder's advertised limit, and every name and
/// value leaves room in a `usize` for its length prefix.
pub proof fn lemma_hpack_roundtrip(e: EncoderView, limit: nat, hs: Seq<HeaderFieldView>)
    requires
        table_fits(e.table),
        e.pending_size_update matches Some(m) ==> m <= limit,
        fields_short(hs),
    ensures
        decode_block_from(e.table, limit, encode_block(e, hs).0, Seq::empty()) == (
            Ok::<Seq<HeaderFieldView>, crate::error::H2Error>(hs),
            encode_block(e, hs).1,
        ),
{
    let t0 = match e.pending_size_update {
        Some(m) => table_set_max_size(e.table, m as nat),
        None => e.table,
    };
    let (body, t1) = encode_fields(t0, hs);
    lemma_table_fits(e.table, Seq::empty(), Seq::empty(), t0.max_size);
    lemma_fields_roundtrip(t0, limit, hs, Seq::empty(), Seq::empty());
    assert(body + Seq::<u8>::empty() =~= body);
    assert(Seq::<HeaderFieldView>::empty() + hs =~= hs);
    match e.pending_size_update {
        Some(m) => {
            let ub = integer_bytes(5, 0x20, m as u64);
            lemma_patterns();
            lemma_integer_roundtrip(5, 0x20, m as u64, body);
            lemma_first_byte(5, 0x20, m as u64);
            let mx = prefix_max(5);
            lemma_flag_bits(if (m as u64) < mx {
                m as u8
            } else {
                mx as u8
            });
            let all = ub + body;
            assert(all[0] == ub[0]);
            assert(all.skip(ub.len() as int) =~= body);
        },
        None => {
            assert(Seq::<u8>::empty() + body =~= body);
        },
    }
}

/// Wherever it stands in a block, a literal field without indexing (or
/// never indexed) adds its field to the decoded list, after the fields
/// before it, marked sensitive exactly when it is never indexed, and leaves
/// the dynamic table as the instructions before it left it.
pub proof fn lemma_unindexed_literal_appends(
    table: TableView,
    limit: nat,
    before: Seq<u8>,
    decoded: Seq<HeaderFieldView>,
    name: Seq<u8>,
    value: Seq<u8>,
    never_indexed: bool,
)
    requires
        decode_block_from(table, limit, before, decoded).0 is Ok,
        name.len() + 11 <= usize::MAX,
        value.len() + 11 <= usize::MAX,
    ensures
        ({
            let (res, t1) = decode_block_from(table, limit, before, decoded);
            let pattern: u8 = if never_indexed {
                0x10
            } else {
                0x00
            };
            decode_block_from(
                table,
                limit,
                before + literal_bytes(4, pattern, None, name, value),
                decoded,
            ) == (
                Ok::<Seq<HeaderFieldView>, crate::error::H2Error>(
                    res->Ok_0.push(HeaderFieldView { name, value, sensitive: never_indexed }),
                ),
                t1,
            )
        }),
{
    let (res, t1) = decode_block_from(table, limit, before, decoded);
    let hs = res->Ok_0;
    let pattern: u8 = if never_indexed {
        0x10
    } else {
        0x00
    };
    let lit = literal_bytes(4, pattern, None, name, value);
    lemma_decode_block_append(table, limit, before, lit, decoded);
    assert(pattern & 15u8 == 0) by (bit_vector)
        requires
            pattern == 0x10u8 || pattern == 0u8,
    ;
    lemma_literal_roundtrip(t1.entries, 4, pattern, None, name, value, Seq::empty());
    assert(lit + Seq::<u8>::empty() =~= lit);
    lemma_first_byte(4, pattern, 0);
    assert(lit[0] == pattern | 0u8);
    assert((pattern == 0x10u8 || pattern == 0u8) ==> (pattern | 0u8) & 0x80 == 0 && (pattern
        | 0u8) & 0x40 == 0 && (pattern | 0u8) & 0x20 == 0 && (((pattern | 0u8) & 0x10 != 0) == (
    pattern == 0x10u8))) by (bit_vector);
    assert(lit.skip(lit.len() as int).len() == 0);
    let f = HeaderFieldView { name, value, sensitive: never_indexed };
    assert(decode_block_from(t1, limit, lit.skip(lit.len() as int), hs.push(f)) == (
        Ok::<Seq<HeaderFieldView>, crate::error::H2Error>(hs.push(f)),
        t1,
    ));
}

/// Wherever it stands in a block, a literal field with incremental
/// indexing adds its field to the decoded list, after the fields before it,
/// and inserts it into the dynamic table as the instructions before it left
/// it (RFC 7541 §6.2.1).
pub proof fn lemma_indexed_literal_appends(
    table: TableView,
    limit: nat,
    before: Seq<u8>,
    decoded: Seq<HeaderFieldView>,
    name: Seq<u8>,
    value: Seq<u8>,
)
    requires
        decode_block_from(table, limit, before, decoded).0 is Ok,
        name.len() + 11 <= usize::MAX,
        value.len() + 11 <= usize::MAX,
    ensures
        ({
            let (res, t1) = decode_block_from(table, limit, before, decoded);
            decode_block_from(table, limit, before + literal_bytes(6, 0x40, None, name, value), decoded)
                == (
                Ok::<Seq<HeaderFieldView>, crate::error::H2Error>(
                    res->Ok_0.push(HeaderFieldView { name, value, sensitive: false }),
                ),
                table_insert(t1, name, value),
            )
        }),
{
    let (res, t1) = decode_block_from(table, limit, before, decoded);
    let hs = res->Ok_0;
    let lit = literal_bytes(6, 0x40, None, name, value);
    lemma_decode_block_append(table, limit, before, lit, decoded);
    lemma_patterns();
    lemma_literal_roundtrip(t1.entries, 6, 0x40, None, name, value, Seq::empty());
    assert(lit + Seq::<u8>::empty() =~= lit);
    lemma_first_byte(6, 0x40, 0);
    lemma_flag_bits(0);
    assert(lit[0] == 0x40u8 | 0u8);
    assert(lit.skip(lit.len() as int).len() == 0);
    let f = HeaderFieldView { name, value, sensitive: false };
    let t2 = table_insert(t1, name, value);
    assert(decode_block_from(t2, limit, lit.skip(lit.len() as int), hs.push(f)) == (
        Ok::<Seq<HeaderFieldView>, crate::error::H2Error>(hs.push(f)),
        t2,
    ));
}

/// Wherever it stands in a block, an indexed field adds to the decoded list
/// the entry its index names in the combined index space (the static table
/// at 1 to 61, then the dynamic table as the instructions before it left
/// it, most recent first), and leaves the table as it is (RFC 7541 §6.1).
pub proof fn lemma_indexed_field_appends(
    table: TableView,
    limit: nat,
    before: Seq<u8>,
    decoded: Seq<HeaderFieldView>,
    index: u64,
)
    requires
        decode_block_from(table, limit, before, decoded).0 is Ok,
        1 <= index <= STATIC_TABLE_LEN + decode_block_from(table, limit, before, decoded).1.entries.len(),
        index <= usize::MAX,
    ensures
        ({
            let (res, t1) = decode_block_from(table, limit, before, decoded);
            let entry = if index <= STATIC_TABLE_LEN {
                static_entries()[index - 1]
            } else {
                t1.entries[index - STATIC_TABLE_LEN - 1]
            };
            decode_block_from(table, limit, before + integer_bytes(7, 0x80, index), decoded) == (
                Ok::<Seq<HeaderFieldView>, crate::error::H2Error>(
                    res->Ok_0.push(HeaderFieldView { name: entry.0, value: entry.1, sensitive: false }),
                ),
                t1,
            )
        }),
{
    let (res, t1) = decode_block_from(table, limit, before, decoded);
    let hs = res->Ok_0;
    let ib = integer_bytes(7, 0x80, index);
    lemma_decode_block_append(table, limit, before, ib, decoded);
    lemma_patterns();
    lemma_integer_roundtrip(7, 0x80, index, Seq::empty());
    assert(ib + Seq::<u8>::empty() =~= ib);
    lemma_first_byte(7, 0x80, index);
    let m = prefix_max(7);
    lemma_flag_bits(if index < m {
        index as u8
    } else {
        m as u8
    });
    assert(ib[0] & 0x80 != 0);
    let entry = if index <= STATIC_TABLE_LEN {
        static_entries()[index - 1]
    } else {
        t1.entries[index - STATIC_TABLE_LEN - 1]
    };
    assert(lookup_result(t1.entries, index as usize) == Ok::<
        (Seq<u8>, Seq<u8>),
        crate::error::H2Error,
    >(entry));
    assert(ib.skip(ib.len() as int).len() == 0);
    let f = HeaderFieldView { name: entry.0, value: entry.1, sensitive: false };
    assert(decode_block_from(t1, limit, ib.skip(ib.len() as int), hs.push(f)) == (
        Ok::<Seq<HeaderFieldView>, crate::error::H2Error>(hs.push(f)),
        t1,
    ));
    assert(decode_block_from(t1, limit, ib, hs) == (
        Ok::<Seq<HeaderFieldView>, crate::error::H2Error>(hs.push(f)),
        t1,
    ));
}

/// Wherever it stands in a block, a Dynamic Table Size Update adds no
/// field: within the advertised limit it sets the dynamic table's maximum
/// size, evicting the oldest entries that no longer fit; above the limit
/// the block is rejected as a compression error (RFC 7541 §6.3, §4.2).
pub proof fn lemma_size_update_applies(
    table: TableView,
    limit: nat,
    before: Seq<u8>,
    decoded: Seq<HeaderFieldView>,
    max_size: u64,
)
    requires
        decode_block_from(table, limit, before, decoded).0 is Ok,
        max_size <= usize::MAX,
    ensures
        ({
            let (res, t1) = decode_block_from(table, limit, before, decoded);
            let (r2, t2) = decode_block_from(
                table,
                limit,
                before + integer_bytes(5, 0x20, max_size),
                decoded,
            );
            &&& max_size <= limit ==> r2 == res && t2 == table_set_max_size(t1, max_size as nat)
            &&& max_size > limit ==> r2 matches Err(
                crate::error::H2Error::Connection(crate::error::ErrorCode::CompressionError, _),
            )
        }),
{
    let (res, t1) = decode_block_from(table, limit, before, decoded);
    let hs = res->Ok_0;
    let ib = integer_bytes(5, 0x20, max_size);
    lemma_decode_block_append(table, limit, before, ib, decoded);
    lemma_patterns();
    lemma_integer_roundtrip(5, 0x20, max_size, Seq::empty());
    assert(ib + Seq::<u8>::empty() =~= ib);
    lemma_first_byte(5, 0x20, max_size);
    let m = prefix_max(5);
    lemma_flag_bits(if max_size < m {
        max_size as u8
    } else {
        m as u8
    });
    assert(ib.skip(ib.len() as int).len() == 0);
    if max_size <= limit {
        let t2 = table_set_max_size(t1, (max_size as usize) as nat);
        assert(decode_block_from(t2, limit, ib.skip(ib.len() as int), hs) == (
            Ok::<Seq<HeaderFieldView>, crate::error::H2Error>(hs),
            t2,
        ));
    }
}

} // verus!
