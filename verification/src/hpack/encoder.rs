use crate::hpack::dynamic_table::{table_insert, table_set_max_size, DynamicTable, TableView};
use crate::hpack::primitive::{encode_integer, encode_string, integer_bytes, string_bytes};
use crate::hpack::static_table::{self, first_match, static_entries, table_find, STATIC_TABLE_LEN};
use crate::hpack::{HeaderField, HeaderFieldView, DEFAULT_HEADER_TABLE_SIZE};
use vstd::prelude::*;

verus! {

/// The combined index of an entry that matches both name and value, if the
/// static or the dynamic table has one; the static table is consulted first.
pub open spec fn exact_index(
    static_hit: Option<(usize, bool)>,
    dynamic_hit: Option<(usize, bool)>,
) -> Option<usize> {
    match (static_hit, dynamic_hit) {
        (Some((idx, true)), _) => Some(idx),
        (_, Some((idx, true))) => Some((STATIC_TABLE_LEN + idx) as usize),
        _ => None,
    }
}

/// The combined index of an entry that matches the name, if either table
/// has one; the static table is consulted first.
pub open spec fn name_index(
    static_hit: Option<(usize, bool)>,
    dynamic_hit: Option<(usize, bool)>,
) -> Option<usize> {
    match (static_hit, dynamic_hit) {
        (Some((idx, _)), _) => Some(idx),
        (_, Some((idx, _))) => Some((STATIC_TABLE_LEN + idx) as usize),
        _ => None,
    }
}

/// A literal header field representation (RFC 7541 §6.2): the name as an
/// index or, for index 0, as a string literal, then the value.
pub open spec fn literal_bytes(
    prefix_bits: u8,
    prefix_pattern: u8,
    name_idx: Option<usize>,
    name: Seq<u8>,
    value: Seq<u8>,
) -> Seq<u8> {
    (match name_idx {
        Some(idx) => integer_bytes(prefix_bits, prefix_pattern, idx as u64),
        None => integer_bytes(prefix_bits, prefix_pattern, 0) + string_bytes(name),
    }) + string_bytes(value)
}

/// The representation of one header field from the dynamic table `table`,
/// and the table afterwards: a sensitive field is always sent as a literal
/// never indexed (RFC 7541 §7.1.3) and leaves the table as it is; any other
/// field is sent as an index when either table holds it exactly, and
/// otherwise as a literal with incremental indexing, which adds it to the
/// table. A literal names its field by index when either table has the name.
pub open spec fn encode_field(table: TableView, h: HeaderFieldView) -> (Seq<u8>, TableView) {
    let static_hit = table_find(static_entries(), h.name, h.value);
    let dynamic_hit = table_find(table.entries, h.name, h.value);
    let ni = name_index(static_hit, dynamic_hit);
    if h.sensitive {
        (literal_bytes(4, 0x10, ni, h.name, h.value), table)
    } else {
        match exact_index(static_hit, dynamic_hit) {
            Some(idx) => (integer_bytes(7, 0x80, idx as u64), table),
            None => (literal_bytes(6, 0x40, ni, h.name, h.value), table_insert(table, h.name, h.value)),
        }
    }
}

/// The representations of a list of header fields, one after the other,
/// and the dynamic table afterwards.
pub open spec fn encode_fields(table: TableView, hs: Seq<HeaderFieldView>) -> (Seq<u8>, TableView)
    decreases hs.len(),
{
    if hs.len() == 0 {
        (Seq::empty(), table)
    } else {
        let (before, t1) = encode_fields(table, hs.drop_last());
        let (last, t2) = encode_field(t1, hs.last());
        (before + last, t2)
    }
}

/// What an encoder holds: its dynamic table and the size update it still
/// has to announce.
pub struct EncoderView {
    pub table: TableView,
    pub pending_size_update: Option<usize>,
}

/// The header block for `hs` (RFC 7541 §6): the pending Dynamic Table Size
/// Update first, if any, then the fields; and the dynamic table afterwards.
pub open spec fn encode_block(e: EncoderView, hs: Seq<HeaderFieldView>) -> (Seq<u8>, TableView) {
    let (update, t0) = match e.pending_size_update {
        Some(m) => (integer_bytes(5, 0x20, m as u64), table_set_max_size(e.table, m as nat)),
        None => (Seq::empty(), e.table),
    };
    let (body, t1) = encode_fields(t0, hs);
    (update + body, t1)
}

/// Whether the names and values of `hs` are short enough for their length
/// arithmetic to fit in a `usize`.
pub open spec fn fields_fit(hs: Seq<HeaderField>) -> bool {
    forall|i: int|
        #![trigger hs[i]]
        0 <= i < hs.len() ==> hs[i].name.len() * 30 <= usize::MAX && hs[i].value.len() * 30
            <= usize::MAX
}

/// An HPACK encoder. Holds the dynamic table state mirroring what the
/// remote peer's decoder will build up as it processes our header blocks.
pub struct Encoder {
    dynamic_table: DynamicTable,
    pending_size_update: Option<usize>,
}

impl View for Encoder {
    type V = EncoderView;

    closed spec fn view(&self) -> EncoderView {
        EncoderView { table: self.dynamic_table@, pending_size_update: self.pending_size_update }
    }
}

impl Default for Encoder {
    fn default() -> (e: Self)
        ensures
            e.wf(),
            e@.table.entries == Seq::<(Seq<u8>, Seq<u8>)>::empty(),
            e@.table.max_size == DEFAULT_HEADER_TABLE_SIZE,
            e@.pending_size_update is None,
    {
        Self::new(DEFAULT_HEADER_TABLE_SIZE)
    }
}

impl Encoder {
    /// The encoder's internal invariant: its dynamic table is well formed.
    pub closed spec fn wf(&self) -> bool {
        self.dynamic_table.wf()
    }

    pub fn new(max_size: usize) -> (e: Self)
        ensures
            e.wf(),
            e@.table.entries == Seq::<(Seq<u8>, Seq<u8>)>::empty(),
            e@.table.max_size == max_size,
            e@.pending_size_update is None,
    {
        Encoder { dynamic_table: DynamicTable::new(max_size), pending_size_update: None }
    }

    /// Record a change to the peer-advertised SETTINGS_HEADER_TABLE_SIZE.
    /// The corresponding Dynamic Table Size Update instruction is emitted
    /// at the start of the next call to [`encode`](Self::encode).
    pub fn set_max_dynamic_table_size(&mut self, max_size: usize)
        requires
            old(self).wf(),
        ensures
            final(self).wf(),
            final(self)@.table == old(self)@.table,
            final(self)@.pending_size_update == Some(max_size),
    {
        self.pending_size_update = Some(max_size);
    }

    /// Encode a full header list into a single header block. Splitting the
    /// block across HEADERS/CONTINUATION frames is the caller's job.
    pub fn encode(&mut self, headers: &[HeaderField], out: &mut Vec<u8>)
        requires
            old(self).wf(),
            fields_fit(headers@),
        ensures
            final(self).wf(),
            final(self)@.pending_size_update is None,
            ({
                let (bytes, table) = encode_block(
                    old(self)@,
                    headers@.map_values(|h: HeaderField| h@),
                );
                &&& final(out)@ == old(out)@ + bytes
                &&& final(self)@.table == table
            }),
    {
        let ghost hs = headers@.map_values(|h: HeaderField| h@);
        let ghost start = out@;
        let ghost e0 = self@;
        match self.pending_size_update.take() {
            Some(max_size) => {
                encode_integer(out, 5, 0x20, max_size as u64);
                self.dynamic_table.set_max_size(max_size);
            },
            None => {},
        }
        let ghost update = out@.skip(start.len() as int);
        proof {
            assert(out@ =~= start + update);
            let (u, t0) = match e0.pending_size_update {
                Some(m) => (integer_bytes(5, 0x20, m as u64), table_set_max_size(e0.table, m as nat)),
                None => (Seq::<u8>::empty(), e0.table),
            };
            assert(update =~= u);
            assert(self@.table == t0);
        }
        let ghost t0 = self@.table;
        let mut i: usize = 0;
        while i < headers.len()
            invariant
                i <= headers.len(),
                self.wf(),
                fields_fit(headers@),
                hs == headers@.map_values(|h: HeaderField| h@),
                self@.pending_size_update is None,
                ({
                    let (body, t) = encode_fields(t0, hs.take(i as int));
                    &&& out@ == start + update + body
                    &&& self@.table == t
                }),
            decreases headers.len() - i,
        {
            let ghost before = out@;
            let ghost tb = self@.table;
            assert(headers@[i as int].name.len() * 30 <= usize::MAX);
            self.encode_one(&headers[i], out);
            proof {
                assert(hs.take(i + 1).drop_last() =~= hs.take(i as int));
                assert(hs.take(i + 1).last() == headers@[i as int]@);
            }
            i = i + 1;
        }
        proof {
            assert(hs.take(i as int) =~= hs);
        }
    }

    fn encode_one(&mut self, header: &HeaderField, out: &mut Vec<u8>)
        requires
            old(self).wf(),
            header.name.len() * 30 <= usize::MAX,
            header.value.len() * 30 <= usize::MAX,
        ensures
            final(self).wf(),
            final(self)@.pending_size_update == old(self)@.pending_size_update,
            ({
                let (bytes, table) = encode_field(old(self)@.table, header@);
                &&& final(out)@ == old(out)@ + bytes
                &&& final(self)@.table == table
            }),
    {
        let static_hit = static_table::find(header.name.as_slice(), header.value.as_slice());
        let dynamic_hit = self.dynamic_table.find(header.name.as_slice(), header.value.as_slice());
        proof {
            self.dynamic_table.lemma_len_bound();
            crate::hpack::static_table::lemma_table_find_index(
                self@.table.entries,
                header.name@,
                header.value@,
            );
        }
        let name_index = match (static_hit, dynamic_hit) {
            (Some((idx, _)), _) => Some(idx),
            (_, Some((idx, _))) => Some(STATIC_TABLE_LEN + idx),
            _ => None,
        };
        // A sensitive field is never sent as an index nor stored, so that it
        // reaches the peer marked "never indexed" (RFC 7541 §7.1.3).
        if header.sensitive {
            self.encode_literal(out, 4, 0x10, name_index, header, false);
            return ;
        }
        // Prefer an exact (name, value) match from either table; the static
        // table is consulted first.
        let exact = match (static_hit, dynamic_hit) {
            (Some((idx, true)), _) => Some(idx),
            (_, Some((idx, true))) => Some(STATIC_TABLE_LEN + idx),
            _ => None,
        };
        if let Some(index) = exact {
            encode_integer(out, 7, 0x80, index as u64);
            return ;
        }
        self.encode_literal(out, 6, 0x40, name_index, header, true);
    }

    fn encode_literal(
        &mut self,
        out: &mut Vec<u8>,
        prefix_bits: u8,
        prefix_pattern: u8,
        name_index: Option<usize>,
        header: &HeaderField,
        add_to_table: bool,
    )
        requires
            old(self).wf(),
            1 <= prefix_bits <= 8,
            header.name.len() * 30 <= usize::MAX,
            header.value.len() * 30 <= usize::MAX,
        ensures
            final(self).wf(),
            final(self)@.pending_size_update == old(self)@.pending_size_update,
            final(out)@ == old(out)@ + literal_bytes(
                prefix_bits,
                prefix_pattern,
                name_index,
                header.name@,
                header.value@,
            ),
            final(self)@.table == if add_to_table {
                table_insert(old(self)@.table, header.name@, header.value@)
            } else {
                old(self)@.table
            },
    {
        match name_index {
            Some(idx) => encode_integer(out, prefix_bits, prefix_pattern, idx as u64),
            None => {
                encode_integer(out, prefix_bits, prefix_pattern, 0);
                encode_string(out, header.name.as_slice());
            },
        }
        encode_string(out, header.value.as_slice());
        if add_to_table {
            let name = crate::hpack::decoder::copy_bytes(header.name.as_slice());
            let value = crate::hpack::decoder::copy_bytes(header.value.as_slice());
            self.dynamic_table.insert(name, value);
        }
    }
}

/// A sensitive field is never added to the dynamic table.
pub proof fn lemma_sensitive_not_stored(table: TableView, h: HeaderFieldView)
    requires
        h.sensitive,
    ensures
        encode_field(table, h).1 == table,
{
}

/// A field that had no exact match is added to the dynamic table when it is
/// encoded, if its entry fits; encoded again right after, it is sent as the
/// first dynamic index, and the table stays as it is.
pub proof fn lemma_repeated_field_indexed(table: TableView, h: HeaderFieldView)
    requires
        !h.sensitive,
        exact_index(
            table_find(static_entries(), h.name, h.value),
            table_find(table.entries, h.name, h.value),
        ) is None,
        crate::hpack::dynamic_table::entry_size_of(h.name, h.value) <= table.max_size,
    ensures
        encode_field(encode_field(table, h).1, h) == (
            integer_bytes(7, 0x80, (STATIC_TABLE_LEN + 1) as u64),
            encode_field(table, h).1,
        ),
{
    let t1 = encode_field(table, h).1;
    assert(t1 == table_insert(table, h.name, h.value));
    crate::hpack::dynamic_table::lemma_insert_most_recent(table, h.name, h.value);
    assert(t1.entries[0].0 == h.name && t1.entries[0].1 == h.value);
    assert(crate::hpack::static_table::first_match(t1.entries, h.name, h.value, true, 0) == Some(
        0int,
    ));
    assert(table_find(t1.entries, h.name, h.value) == Some((1usize, true)));
}

proof fn lemma_literal_first_byte(
    prefix_bits: u8,
    prefix_pattern: u8,
    name_idx: Option<usize>,
    name: Seq<u8>,
    value: Seq<u8>,
)
    requires
        prefix_bits == 4 && prefix_pattern == 0x10 || prefix_bits == 6 && prefix_pattern == 0x40,
    ensures
        prefix_bits == 4 ==> literal_bytes(prefix_bits, prefix_pattern, name_idx, name, value)[0]
            & 0xf0 == 0x10,
        prefix_bits == 6 ==> literal_bytes(prefix_bits, prefix_pattern, name_idx, name, value)[0]
            & 0xc0 == 0x40,
{
    let v: u64 = match name_idx {
        Some(idx) => idx as u64,
        None => 0,
    };
    let ib = integer_bytes(prefix_bits, prefix_pattern, v);
    let m = crate::hpack::primitive::prefix_max(prefix_bits);
    let low: u8 = if v < m {
        v as u8
    } else {
        m as u8
    };
    assert(ib[0] == prefix_pattern | low);
    assert(literal_bytes(prefix_bits, prefix_pattern, name_idx, name, value)[0] == ib[0]);
    assert(low <= 15 ==> (0x10u8 | low) & 0xf0 == 0x10) by (bit_vector);
    assert(low <= 63 ==> (0x40u8 | low) & 0xc0 == 0x40) by (bit_vector);
}

/// How one field is represented: a sensitive field as a literal never
/// indexed, the table unchanged; any other field as the index of its first
/// exact match, static table first, the table unchanged; and otherwise as a
/// literal with incremental indexing (naming the field by index when either
/// table has its name), which adds the field to the table.
pub proof fn lemma_encode_field_choice(table: TableView, h: HeaderFieldView)
    requires
        32 * table.entries.len() <= usize::MAX,
    ensures
        h.sensitive ==> encode_field(table, h).1 == table && encode_field(table, h).0[0] & 0xf0
            == 0x10,
        !h.sensitive ==> match first_match(static_entries(), h.name, h.value, true, 0) {
            Some(i) => encode_field(table, h) == (integer_bytes(7, 0x80, (i + 1) as u64), table),
            None => match first_match(table.entries, h.name, h.value, true, 0) {
                Some(j) => encode_field(table, h) == (
                    integer_bytes(7, 0x80, (STATIC_TABLE_LEN + j + 1) as u64),
                    table,
                ),
                None => {
                    &&& encode_field(table, h) == (
                        literal_bytes(
                            6,
                            0x40,
                            name_index(
                                table_find(static_entries(), h.name, h.value),
                                table_find(table.entries, h.name, h.value),
                            ),
                            h.name,
                            h.value,
                        ),
                        table_insert(table, h.name, h.value),
                    )
                    &&& encode_field(table, h).0[0] & 0xc0 == 0x40
                },
            },
        },
{
    let sh = table_find(static_entries(), h.name, h.value);
    let dh = table_find(table.entries, h.name, h.value);
    let ni = name_index(sh, dh);
    crate::hpack::static_table::lemma_first_match_range(static_entries(), h.name, h.value, true, 0);
    crate::hpack::static_table::lemma_first_match_range(table.entries, h.name, h.value, true, 0);
    if h.sensitive {
        lemma_literal_first_byte(4, 0x10, ni, h.name, h.value);
    } else {
        lemma_literal_first_byte(6, 0x40, ni, h.name, h.value);
    }
}

} // verus!
