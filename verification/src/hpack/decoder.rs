use crate::error::{ErrorCode, H2Error, Result};
use crate::hpack::dynamic_table::{table_insert, table_set_max_size, DynamicTable, TableView};
use crate::hpack::primitive::{
    append_bytes, decode_integer, decode_integer_result, decode_string, decode_string_result,
    lemma_decode_integer_len, lemma_decode_string_len, lemma_integer_extend, lemma_string_extend,
};
use crate::hpack::static_table::{self, static_entries, EntriesView, STATIC_TABLE_LEN};
use crate::hpack::{fields_view, HeaderField, HeaderFieldView, DEFAULT_HEADER_TABLE_SIZE};
use vstd::prelude::*;
use vstd::string::StringSliceAdditionalSpecFns;

verus! {

/// The header field at a 1-based `index` of the combined static and
/// dynamic index space, or the error for an index that names none.
pub open spec fn lookup_result(entries: EntriesView, index: usize) -> Result<(Seq<u8>, Seq<u8>)> {
    if index == 0 {
        Err(
            H2Error::Connection(
                ErrorCode::CompressionError,
                "HPACK index 0 is not a valid header field reference",
            ),
        )
    } else if index <= STATIC_TABLE_LEN {
        Ok(static_entries()[index - 1])
    } else if index - STATIC_TABLE_LEN <= entries.len() {
        Ok(entries[index - STATIC_TABLE_LEN - 1])
    } else {
        Err(H2Error::Connection(ErrorCode::CompressionError, "HPACK index out of range"))
    }
}

/// Decoding a literal header field representation with an N-bit index
/// prefix from the front of `block`: the octets it took and the field (not
/// marked sensitive), or the error.
pub open spec fn decode_literal_result(entries: EntriesView, block: Seq<u8>, prefix_bits: u8) -> Result<
    (int, HeaderFieldView),
> {
    match decode_integer_result(block, prefix_bits) {
        Err(e) => Err(e),
        Ok((index, c1)) => {
            let named: Result<(Seq<u8>, int)> = if index == 0 {
                match decode_string_result(block.skip(c1 as int)) {
                    Ok((n, l)) => Ok((n, c1 + l)),
                    Err(e) => Err(e),
                }
            } else {
                match lookup_result(entries, index as usize) {
                    Ok((n, _)) => Ok((n, c1 as int)),
                    Err(e) => Err(e),
                }
            };
            match named {
                Err(e) => Err(e),
                Ok((name, c2)) => match decode_string_result(block.skip(c2)) {
                    Err(e) => Err(e),
                    Ok((value, l)) => Ok(
                        (c2 + l, HeaderFieldView { name, value, sensitive: false }),
                    ),
                },
            }
        },
    }
}

/// A decoded literal field takes at least one octet and no more than there are.
pub proof fn lemma_decode_literal_len(entries: EntriesView, block: Seq<u8>, prefix_bits: u8)
    ensures
        decode_literal_result(entries, block, prefix_bits) matches Ok((n, _)) ==> 1 <= n
            <= block.len(),
{
    lemma_decode_integer_len(block, prefix_bits);
    if let Ok((index, c1)) = decode_integer_result(block, prefix_bits) {
        lemma_decode_string_len(block.skip(c1 as int));
        assert(block.skip(c1 as int).len() == block.len() - c1);
        if index == 0 {
            if let Ok((_, l)) = decode_string_result(block.skip(c1 as int)) {
                lemma_decode_string_len(block.skip(c1 + l));
                assert(block.skip(c1 + l).len() == block.len() - c1 - l);
            }
        }
    }
}

/// The error for a Dynamic Table Size Update above the advertised limit.
pub open spec fn size_update_error() -> H2Error {
    H2Error::Connection(
        ErrorCode::CompressionError,
        "Dynamic Table Size Update exceeds advertised SETTINGS_HEADER_TABLE_SIZE",
    )
}

/// Decoding the rest of a header block (RFC 7541 §6), starting from the
/// dynamic table `table` with `decoded` so far: the header list or the
/// error, and the dynamic table afterwards (instructions before an error
/// have taken effect).
pub open spec fn decode_block_from(
    table: TableView,
    limit: nat,
    block: Seq<u8>,
    decoded: Seq<HeaderFieldView>,
) -> (Result<Seq<HeaderFieldView>>, TableView)
    decreases block.len(),
{
    if block.len() == 0 {
        (Ok(decoded), table)
    } else {
        let first = block[0];
        if first & 0x80 != 0 {
            match decode_integer_result(block, 7) {
                Err(e) => (Err(e), table),
                Ok((index, consumed)) => match lookup_result(table.entries, index as usize) {
                    Err(e) => (Err(e), table),
                    Ok((name, value)) => {
                        proof {
                            lemma_decode_integer_len(block, 7);
                        }
                        decode_block_from(
                            table,
                            limit,
                            block.skip(consumed as int),
                            decoded.push(HeaderFieldView { name, value, sensitive: false }),
                        )
                    },
                },
            }
        } else if first & 0x40 != 0 {
            match decode_literal_result(table.entries, block, 6) {
                Err(e) => (Err(e), table),
                Ok((consumed, h)) => {
                    proof {
                        lemma_decode_literal_len(table.entries, block, 6);
                    }
                    decode_block_from(
                        table_insert(table, h.name, h.value),
                        limit,
                        block.skip(consumed as int),
                        decoded.push(h),
                    )
                },
            }
        } else if first & 0x20 != 0 {
            match decode_integer_result(block, 5) {
                Err(e) => (Err(e), table),
                Ok((max_size, consumed)) => if max_size as usize > limit {
                    (Err(size_update_error()), table)
                } else {
                    proof {
                        lemma_decode_integer_len(block, 5);
                    }
                    decode_block_from(
                        table_set_max_size(table, (max_size as usize) as nat),
                        limit,
                        block.skip(consumed as int),
                        decoded,
                    )
                },
            }
        } else {
            match decode_literal_result(table.entries, block, 4) {
                Err(e) => (Err(e), table),
                Ok((consumed, h)) => {
                    proof {
                        lemma_decode_literal_len(table.entries, block, 4);
                    }
                    decode_block_from(
                        table,
                        limit,
                        block.skip(consumed as int),
                        decoded.push(
                            HeaderFieldView {
                                name: h.name,
                                value: h.value,
                                sensitive: first & 0x10 != 0,
                            },
                        ),
                    )
                },
            }
        }
    }
}

/// What a decoder holds: its dynamic table and the table size it has
/// advertised, which bounds in-band size updates.
pub struct DecoderView {
    pub table: TableView,
    pub max_size_limit: nat,
}

/// An HPACK decoder. Holds the dynamic table state built up from the
/// header blocks it has processed so far.
pub struct Decoder {
    dynamic_table: DynamicTable,
    /// The SETTINGS_HEADER_TABLE_SIZE we have advertised to the peer; a
    /// Dynamic Table Size Update instruction may not exceed this (RFC 7541
    /// §6.3).
    max_size_limit: usize,
}

impl View for Decoder {
    type V = DecoderView;

    closed spec fn view(&self) -> DecoderView {
        DecoderView { table: self.dynamic_table@, max_size_limit: self.max_size_limit as nat }
    }
}

impl Default for Decoder {
    fn default() -> (d: Self)
        ensures
            d.wf(),
            d@.table.entries == Seq::<(Seq<u8>, Seq<u8>)>::empty(),
            d@.table.max_size == DEFAULT_HEADER_TABLE_SIZE,
            d@.max_size_limit == DEFAULT_HEADER_TABLE_SIZE,
    {
        Self::new(DEFAULT_HEADER_TABLE_SIZE)
    }
}

/// A copy of the octets of `s`.
pub(crate) fn copy_bytes(s: &[u8]) -> (v: Vec<u8>)
    ensures
        v@ == s@,
{
    let mut v: Vec<u8> = Vec::new();
    append_bytes(&mut v, s);
    v
}

impl Decoder {
    /// The decoder's internal invariant: its dynamic table is well formed,
    /// and its maximum size is within the limit the decoder advertises.
    pub closed spec fn wf(&self) -> bool {
        &&& self.dynamic_table.wf()
        &&& self.dynamic_table@.max_size <= self.max_size_limit
    }

    /// A decoder's dynamic table never holds more than the limit it
    /// advertises: the last value given to `new` or `set_max_size_limit`.
    pub proof fn lemma_table_within_limit(&self)
        requires
            self.wf(),
        ensures
            self@.table.max_size <= self@.max_size_limit,
            crate::hpack::dynamic_table::entries_size(self@.table.entries) <= self@.max_size_limit,
    {
        self.dynamic_table.lemma_size_fits();
    }

    pub fn new(max_size: usize) -> (d: Self)
        ensures
            d.wf(),
            d@.table.entries == Seq::<(Seq<u8>, Seq<u8>)>::empty(),
            d@.table.max_size == max_size,
            d@.max_size_limit == max_size,
    {
        Decoder { dynamic_table: DynamicTable::new(max_size), max_size_limit: max_size }
    }

    /// Number of entries currently held in the dynamic table.
    pub fn dynamic_table_len(&self) -> (r: usize)
        ensures
            r == self@.table.entries.len(),
    {
        self.dynamic_table.len()
    }

    /// Current total size (RFC 7541 §4.1 accounting) of the dynamic table.
    pub fn dynamic_table_size(&self) -> (r: usize)
        requires
            self.wf(),
        ensures
            r == crate::hpack::dynamic_table::entries_size(self@.table.entries),
            r <= self@.table.max_size,
            r <= self@.max_size_limit,
    {
        self.dynamic_table.size()
    }

    /// Update the limit after we change our own SETTINGS_HEADER_TABLE_SIZE.
    pub fn set_max_size_limit(&mut self, max_size: usize)
        requires
            old(self).wf(),
        ensures
            final(self).wf(),
            final(self)@.max_size_limit == max_size,
            final(self)@.table == if old(self)@.table.max_size > max_size {
                table_set_max_size(old(self)@.table, max_size as nat)
            } else {
                old(self)@.table
            },
    {
        self.max_size_limit = max_size;
        if self.dynamic_table.max_size() > max_size {
            self.dynamic_table.set_max_size(max_size);
        }
    }

    /// Decode a complete header block into its header list, updating the
    /// dynamic table as the block's instructions say.
    pub fn decode(&mut self, block: &[u8]) -> (r: Result<Vec<HeaderField>>)
        requires
            old(self).wf(),
        ensures
            final(self).wf(),
            final(self)@.max_size_limit == old(self)@.max_size_limit,
            ({
                let (res, table) = decode_block_from(
                    old(self)@.table,
                    old(self)@.max_size_limit,
                    block@,
                    Seq::empty(),
                );
                &&& final(self)@.table == table
                &&& match res {
                    Ok(hs) => r matches Ok(v) && fields_view(v@) == hs,
                    Err(e) => r == Err::<Vec<HeaderField>, H2Error>(e),
                }
            }),
    {
        let ghost target = decode_block_from(
            self@.table,
            self@.max_size_limit,
            block@,
            Seq::empty(),
        );
        let mut headers: Vec<HeaderField> = Vec::new();
        let mut pos: usize = 0;
        proof {
            assert(block@.skip(0) =~= block@);
            assert(fields_view(headers@) =~= Seq::<HeaderFieldView>::empty());
        }
        while pos < block.len()
            invariant
                pos <= block.len(),
                self.wf(),
                self@.max_size_limit == old(self)@.max_size_limit,
                target == decode_block_from(
                    old(self)@.table,
                    old(self)@.max_size_limit,
                    block@,
                    Seq::empty(),
                ),
                target == decode_block_from(
                    self@.table,
                    self@.max_size_limit,
                    block@.skip(pos as int),
                    fields_view(headers@),
                ),
            decreases block.len() - pos,
        {
            let rest = vstd::slice::slice_subrange(block, pos, block.len());
            assert(rest@ =~= block@.skip(pos as int));
            let first = rest[0];
            let ghost hv = fields_view(headers@);
            if first & 0x80 != 0 {
                let (index, consumed) = match decode_integer(rest, 7) {
                    Ok(x) => x,
                    Err(e) => {
                        return Err(e);
                    },
                };
                let (name, value) = match self.lookup(index as usize) {
                    Ok(x) => x,
                    Err(e) => {
                        return Err(e);
                    },
                };
                proof {
                    lemma_decode_integer_len(rest@, 7);
                    assert(rest@.skip(consumed as int) =~= block@.skip(pos + consumed));
                }
                headers.push(HeaderField { name, value, sensitive: false });
                pos = pos + consumed;
                assert(fields_view(headers@) =~= hv.push(headers@.last()@));
            } else if first & 0x40 != 0 {
                let (consumed, header) = match self.decode_literal(rest, 6) {
                    Ok(x) => x,
                    Err(e) => {
                        return Err(e);
                    },
                };
                proof {
                    lemma_decode_literal_len(self@.table.entries, rest@, 6);
                    assert(rest@.skip(consumed as int) =~= block@.skip(pos + consumed));
                }
                let name = copy_bytes(header.name.as_slice());
                let value = copy_bytes(header.value.as_slice());
                self.dynamic_table.insert(name, value);
                headers.push(header);
                pos = pos + consumed;
                assert(fields_view(headers@) =~= hv.push(headers@.last()@));
            } else if first & 0x20 != 0 {
                let (max_size, consumed) = match decode_integer(rest, 5) {
                    Ok(x) => x,
                    Err(e) => {
                        return Err(e);
                    },
                };
                let max_size = max_size as usize;
                if max_size > self.max_size_limit {
                    return Err(
                        H2Error::Connection(
                            ErrorCode::CompressionError,
                            "Dynamic Table Size Update exceeds advertised SETTINGS_HEADER_TABLE_SIZE",
                        ),
                    );
                }
                proof {
                    lemma_decode_integer_len(rest@, 5);
                    assert(rest@.skip(consumed as int) =~= block@.skip(pos + consumed));
                }
                self.dynamic_table.set_max_size(max_size);
                pos = pos + consumed;
            } else {
                // 0x10 = literal never indexed, 0x00 = literal without indexing;
                // both use a 4-bit prefix and are otherwise identical on the wire.
                let sensitive = first & 0x10 != 0;
                let (consumed, mut header) = match self.decode_literal(rest, 4) {
                    Ok(x) => x,
                    Err(e) => {
                        return Err(e);
                    },
                };
                proof {
                    lemma_decode_literal_len(self@.table.entries, rest@, 4);
                    assert(rest@.skip(consumed as int) =~= block@.skip(pos + consumed));
                }
                header.sensitive = sensitive;
                headers.push(header);
                pos = pos + consumed;
                assert(fields_view(headers@) =~= hv.push(headers@.last()@));
            }
        }
        proof {
            assert(block@.skip(pos as int).len() == 0);
        }
        Ok(headers)
    }

    fn decode_literal(&self, block: &[u8], prefix_bits: u8) -> (r: Result<(usize, HeaderField)>)
        requires
            prefix_bits == 4 || prefix_bits == 6,
        ensures
            match decode_literal_result(self@.table.entries, block@, prefix_bits) {
                Ok((n, h)) => r matches Ok((m, f)) && m == n && f@ == h,
                Err(e) => r == Err::<(usize, HeaderField), H2Error>(e),
            },
    {
        let (index, mut consumed) = match decode_integer(block, prefix_bits) {
            Ok(x) => x,
            Err(e) => {
                return Err(e);
            },
        };
        proof {
            lemma_decode_integer_len(block@, prefix_bits);
        }
        let name = if index == 0 {
            let tail = vstd::slice::slice_subrange(block, consumed, block.len());
            assert(tail@ =~= block@.skip(consumed as int));
            let (name, len) = match decode_string(tail) {
                Ok(x) => x,
                Err(e) => {
                    return Err(e);
                },
            };
            proof {
                lemma_decode_string_len(tail@);
            }
            consumed = consumed + len;
            name
        } else {
            match self.lookup(index as usize) {
                Ok((n, _)) => n,
                Err(e) => {
                    return Err(e);
                },
            }
        };
        let tail = vstd::slice::slice_subrange(block, consumed, block.len());
        assert(tail@ =~= block@.skip(consumed as int));
        let (value, len) = match decode_string(tail) {
            Ok(x) => x,
            Err(e) => {
                return Err(e);
            },
        };
        proof {
            lemma_decode_string_len(tail@);
        }
        consumed = consumed + len;
        Ok((consumed, HeaderField { name, value, sensitive: false }))
    }

    fn lookup(&self, index: usize) -> (r: Result<(Vec<u8>, Vec<u8>)>)
        ensures
            match lookup_result(self@.table.entries, index) {
                Ok((n, v)) => r matches Ok((a, b)) && a@ == n && b@ == v,
                Err(e) => r == Err::<(Vec<u8>, Vec<u8>), H2Error>(e),
            },
    {
        if index == 0 {
            return Err(
                H2Error::Connection(
                    ErrorCode::CompressionError,
                    "HPACK index 0 is not a valid header field reference",
                ),
            );
        }
        let static_len = STATIC_TABLE_LEN;
        if index <= static_len {
            let (name, value) = static_table::get(index).unwrap();
            assert(static_entries()[index - 1] == (name.spec_bytes(), value.spec_bytes()));
            return Ok((copy_bytes(name.as_bytes()), copy_bytes(value.as_bytes())));
        }
        match self.dynamic_table.get(index - static_len) {
            Some((n, v)) => Ok((copy_bytes(n), copy_bytes(v))),
            None => Err(H2Error::Connection(ErrorCode::CompressionError, "HPACK index out of range")),
        }
    }
}

/// A literal field without indexing, or never indexed, leaves the dynamic
/// table as it is: a block that holds one such field decodes to that field
/// alone and does not change the table.
pub proof fn lemma_literal_without_indexing_keeps_table(table: TableView, limit: nat, block: Seq<u8>)
    requires
        block.len() > 0,
        block[0] & 0xe0 == 0,
        decode_literal_result(table.entries, block, 4) matches Ok((n, _)) && n == block.len(),
    ensures
        decode_block_from(table, limit, block, Seq::empty()) == (
            Ok::<Seq<HeaderFieldView>, H2Error>(
                seq![
                    HeaderFieldView {
                        name: decode_literal_result(table.entries, block, 4)->Ok_0.1.name,
                        value: decode_literal_result(table.entries, block, 4)->Ok_0.1.value,
                        sensitive: block[0] & 0x10 != 0,
                    },
                ],
            ),
            table,
        ),
{
    let first = block[0];
    assert(first & 0xe0 == 0 ==> first & 0x80 == 0 && first & 0x40 == 0 && first & 0x20 == 0)
        by (bit_vector);
    let (n, h) = decode_literal_result(table.entries, block, 4)->Ok_0;
    let f = HeaderFieldView { name: h.name, value: h.value, sensitive: first & 0x10 != 0 };
    let pushed = Seq::<HeaderFieldView>::empty().push(f);
    assert(block.skip(n).len() == 0);
    assert(decode_block_from(table, limit, block.skip(n), pushed) == (
        Ok::<Seq<HeaderFieldView>, H2Error>(pushed),
        table,
    ));
    assert(pushed =~= seq![f]);
}

/// A literal field that decodes from `block` decodes the same, taking the
/// same octets, whatever follows `block`.
proof fn lemma_literal_extend(entries: EntriesView, block: Seq<u8>, rest: Seq<u8>, prefix_bits: u8)
    requires
        decode_literal_result(entries, block, prefix_bits) is Ok,
    ensures
        decode_literal_result(entries, block + rest, prefix_bits) == decode_literal_result(
            entries,
            block,
            prefix_bits,
        ),
{
    lemma_integer_extend(block, rest, prefix_bits);
    lemma_decode_integer_len(block, prefix_bits);
    let (index, c1) = decode_integer_result(block, prefix_bits)->Ok_0;
    assert((block + rest).skip(c1 as int) =~= block.skip(c1 as int) + rest);
    let c2: int = if index == 0 {
        lemma_string_extend(block.skip(c1 as int), rest);
        lemma_decode_string_len(block.skip(c1 as int));
        let (_, l) = decode_string_result(block.skip(c1 as int))->Ok_0;
        c1 + l
    } else {
        c1 as int
    };
    assert(c2 <= block.len());
    assert((block + rest).skip(c2) =~= block.skip(c2) + rest);
    lemma_string_extend(block.skip(c2), rest);
}

#[verifier::spinoff_prover]
#[verifier::rlimit(60)]
/// Decoding a block made of two parts, when the first part decodes on its
/// own, is decoding the first part and then the second from where it left
/// the dynamic table and the header list.
pub proof fn lemma_decode_block_append(
    table: TableView,
    limit: nat,
    first_part: Seq<u8>,
    second_part: Seq<u8>,
    decoded: Seq<HeaderFieldView>,
)
    requires
        decode_block_from(table, limit, first_part, decoded).0 is Ok,
    ensures
        decode_block_from(table, limit, first_part + second_part, decoded) == decode_block_from(
            decode_block_from(table, limit, first_part, decoded).1,
            limit,
            second_part,
            decode_block_from(table, limit, first_part, decoded).0->Ok_0,
        ),
    decreases first_part.len(),
{
    let p = first_part;
    let r = second_part;
    let all = p + r;
    if p.len() == 0 {
        assert(all =~= r);
    } else {
        let first = p[0];
        assert(all[0] == first);
        if first & 0x80 != 0 {
            lemma_integer_extend(p, r, 7);
            lemma_decode_integer_len(p, 7);
            let (index, consumed) = decode_integer_result(p, 7)->Ok_0;
            let (name, value) = lookup_result(table.entries, index as usize)->Ok_0;
            assert(all.skip(consumed as int) =~= p.skip(consumed as int) + r);
            lemma_decode_block_append(
                table,
                limit,
                p.skip(consumed as int),
                r,
                decoded.push(HeaderFieldView { name, value, sensitive: false }),
            );
        } else if first & 0x40 != 0 {
            lemma_literal_extend(table.entries, p, r, 6);
            lemma_decode_literal_len(table.entries, p, 6);
            let (consumed, h) = decode_literal_result(table.entries, p, 6)->Ok_0;
            assert(all.skip(consumed) =~= p.skip(consumed) + r);
            lemma_decode_block_append(
                table_insert(table, h.name, h.value),
                limit,
                p.skip(consumed),
                r,
                decoded.push(h),
            );
        } else if first & 0x20 != 0 {
            lemma_integer_extend(p, r, 5);
            lemma_decode_integer_len(p, 5);
            let (max_size, consumed) = decode_integer_result(p, 5)->Ok_0;
            assert(all.skip(consumed as int) =~= p.skip(consumed as int) + r);
            lemma_decode_block_append(
                table_set_max_size(table, (max_size as usize) as nat),
                limit,
                p.skip(consumed as int),
                r,
                decoded,
            );
        } else {
            lemma_literal_extend(table.entries, p, r, 4);
            lemma_decode_literal_len(table.entries, p, 4);
            let (consumed, h) = decode_literal_result(table.entries, p, 4)->Ok_0;
            assert(all.skip(consumed) =~= p.skip(consumed) + r);
            lemma_decode_block_append(
                table,
                limit,
                p.skip(consumed),
                r,
                decoded.push(
                    HeaderFieldView { name: h.name, value: h.value, sensitive: first & 0x10 != 0 },
                ),
            );
        }
    }
}

} // verus!
