//! The HPACK dynamic table (RFC 7541 §2.3.2, §4).
use crate::hpack::static_table::{bytes_eq, first_match, table_find, EntriesView};
use std::collections::VecDeque;
use vstd::prelude::*;

verus! {

/// Per RFC 7541 §4.1: each entry's size is its name and value lengths plus
/// 32 bytes of accounting overhead.
pub const ENTRY_OVERHEAD: usize = 32;

/// The size of an entry, per the RFC 7541 §4.1 accounting rule.
pub open spec fn entry_size_of(name: Seq<u8>, value: Seq<u8>) -> nat {
    name.len() + value.len() + 32
}

/// The total size of a list of entries.
pub open spec fn entries_size(entries: EntriesView) -> nat
    decreases entries.len(),
{
    if entries.len() == 0 {
        0
    } else {
        entries_size(entries.drop_last()) + entry_size_of(
            entries.last().0,
            entries.last().1,
        )
    }
}

/// The entries left after evicting the oldest (last) ones until the total
/// size is at most `max_size` (RFC 7541 §4.4).
pub open spec fn evict(entries: EntriesView, max_size: nat) -> EntriesView
    decreases entries.len(),
{
    if entries.len() == 0 || entries_size(entries) <= max_size {
        entries
    } else {
        evict(entries.drop_last(), max_size)
    }
}

/// What a dynamic table holds: its entries, most recent first, and its
/// maximum size.
pub struct TableView {
    pub entries: EntriesView,
    pub max_size: nat,
}

/// The table after inserting `(name, value)` (RFC 7541 §4.4): the new entry
/// goes in front, then the oldest entries are evicted until the table fits;
/// an entry larger than the maximum size thereby empties the table.
pub open spec fn table_insert(t: TableView, name: Seq<u8>, value: Seq<u8>) -> TableView {
    TableView { entries: evict(seq![(name, value)] + t.entries, t.max_size), max_size: t.max_size }
}

/// The table after its maximum size becomes `max_size` (RFC 7541 §4.3).
pub open spec fn table_set_max_size(t: TableView, max_size: nat) -> TableView {
    TableView { entries: evict(t.entries, max_size), max_size: max_size }
}

fn entry_size_exec(name: &Vec<u8>, value: &Vec<u8>) -> (r: usize)
    requires
        entry_size_of(name@, value@) <= usize::MAX,
    ensures
        r == entry_size_of(name@, value@),
{
    name.len() + value.len() + ENTRY_OVERHEAD
}

/// The size of an entry with this name and value (RFC 7541 §4.1).
pub fn entry_size(name: &[u8], value: &[u8]) -> (r: usize)
    requires
        entry_size_of(name@, value@) <= usize::MAX,
    ensures
        r == entry_size_of(name@, value@),
{
    name.len() + value.len() + ENTRY_OVERHEAD
}

/// A single encoder/decoder's dynamic table. Front of the deque is the most
/// recently inserted entry (combined index `STATIC_TABLE_LEN + 1`).
#[derive(Debug, Default)]
pub struct DynamicTable {
    entries: VecDeque<(Vec<u8>, Vec<u8>)>,
    size: usize,
    max_size: usize,
}

pub open spec fn entry_view(e: (Vec<u8>, Vec<u8>)) -> (Seq<u8>, Seq<u8>) {
    (e.0@, e.1@)
}

impl View for DynamicTable {
    type V = TableView;

    closed spec fn view(&self) -> TableView {
        TableView {
            entries: self.entries@.map_values(|e: (Vec<u8>, Vec<u8>)| entry_view(e)),
            max_size: self.max_size as nat,
        }
    }
}

proof fn lemma_entries_size_prepend(x: (Seq<u8>, Seq<u8>), es: EntriesView)
    ensures
        entries_size(seq![x] + es) == entry_size_of(x.0, x.1) + entries_size(es),
    decreases es.len(),
{
    let s = seq![x] + es;
    if es.len() == 0 {
        assert(s.drop_last() =~= Seq::<(Seq<u8>, Seq<u8>)>::empty());
        assert(s.last() == x);
        assert(entries_size(s.drop_last()) == 0);
    } else {
        assert(s.drop_last() =~= seq![x] + es.drop_last());
        assert(s.last() == es.last());
        lemma_entries_size_prepend(x, es.drop_last());
    }
}

proof fn lemma_evict_prepend(x: (Seq<u8>, Seq<u8>), es: EntriesView, max_size: nat)
    requires
        entry_size_of(x.0, x.1) <= max_size,
    ensures
        evict(seq![x] + es, max_size) == seq![x] + evict(
            es,
            (max_size - entry_size_of(x.0, x.1)) as nat,
        ),
    decreases es.len(),
{
    lemma_entries_size_prepend(x, es);
    if es.len() > 0 && entries_size(seq![x] + es) > max_size {
        assert((seq![x] + es).drop_last() =~= seq![x] + es.drop_last());
        lemma_evict_prepend(x, es.drop_last(), max_size);
    }
}

proof fn lemma_evict_oversized(x: (Seq<u8>, Seq<u8>), es: EntriesView, max_size: nat)
    requires
        entry_size_of(x.0, x.1) > max_size,
    ensures
        evict(seq![x] + es, max_size) == Seq::<(Seq<u8>, Seq<u8>)>::empty(),
    decreases es.len(),
{
    lemma_entries_size_prepend(x, es);
    let s = seq![x] + es;
    if es.len() > 0 {
        assert(s.drop_last() =~= seq![x] + es.drop_last());
        lemma_evict_oversized(x, es.drop_last(), max_size);
    } else {
        assert(s.drop_last() =~= Seq::<(Seq<u8>, Seq<u8>)>::empty());
        assert(evict(s.drop_last(), max_size) == s.drop_last());
    }
}

proof fn lemma_evict_fits(es: EntriesView, max_size: nat)
    ensures
        entries_size(evict(es, max_size)) <= max_size,
    decreases es.len(),
{
    if es.len() > 0 && entries_size(es) > max_size {
        lemma_evict_fits(es.drop_last(), max_size);
    }
}

/// Every entry takes at least 32 octets of the accounted size.
pub proof fn lemma_entries_count(es: EntriesView)
    ensures
        32 * es.len() <= entries_size(es),
    decreases es.len(),
{
    if es.len() > 0 {
        lemma_entries_count(es.drop_last());
    }
}

impl DynamicTable {
    /// A well-formed table holds fewer entries than a `usize` counts bytes,
    /// by a factor of 32.
    pub proof fn lemma_len_bound(&self)
        requires
            self.wf(),
        ensures
            32 * self@.entries.len() <= usize::MAX,
    {
        lemma_entries_count(self@.entries);
    }

    /// A well-formed table's entries fit within its maximum size.
    pub proof fn lemma_size_fits(&self)
        requires
            self.wf(),
        ensures
            entries_size(self@.entries) <= self@.max_size,
    {
    }

    /// The table's internal invariant: `size` is the accounted size of its
    /// entries, and that is within its maximum size.
    pub closed spec fn wf(&self) -> bool {
        &&& self.size == entries_size(self@.entries)
        &&& self.size <= self.max_size
    }

    pub fn new(max_size: usize) -> (t: Self)
        ensures
            t.wf(),
            t@.entries == Seq::<(Seq<u8>, Seq<u8>)>::empty(),
            t@.max_size == max_size,
    {
        let t = DynamicTable { entries: VecDeque::new(), size: 0, max_size };
        assert(t@.entries =~= Seq::<(Seq<u8>, Seq<u8>)>::empty());
        t
    }

    pub fn max_size(&self) -> (r: usize)
        ensures
            r == self@.max_size,
    {
        self.max_size
    }

    /// Evict the oldest entries until the total size is at most `budget`.
    fn evict_to_fit(&mut self, budget: usize)
        requires
            old(self).size == entries_size(old(self)@.entries),
        ensures
            final(self).size == entries_size(final(self)@.entries),
            final(self).size <= budget,
            final(self)@.entries == evict(old(self)@.entries, budget as nat),
            final(self).max_size == old(self).max_size,
    {
        while self.size > budget
            invariant
                self.size == entries_size(self@.entries),
                evict(old(self)@.entries, budget as nat) == evict(self@.entries, budget as nat),
                self.max_size == old(self).max_size,
            decreases self.entries@.len(),
        {
            let ghost before = self@.entries;
            match self.entries.pop_back() {
                Some((name, value)) => {
                    proof {
                        assert(self@.entries =~= before.drop_last());
                        assert(before.last() == (name@, value@));
                    }
                    let sz = entry_size_exec(&name, &value);
                    self.size = self.size - sz;
                },
                None => {
                    proof {
                        assert(before.len() == 0);
                        assert(false);
                    }
                },
            }
        }
    }

    /// Apply a new maximum size (from a SETTINGS change or an in-band
    /// Dynamic Table Size Update instruction), evicting as needed.
    pub fn set_max_size(&mut self, max_size: usize)
        requires
            old(self).wf(),
        ensures
            final(self).wf(),
            final(self)@ == table_set_max_size(old(self)@, max_size as nat),
    {
        self.max_size = max_size;
        self.evict_to_fit(max_size);
    }

    pub fn len(&self) -> (r: usize)
        ensures
            r == self@.entries.len(),
    {
        self.entries.len()
    }

    pub fn is_empty(&self) -> (r: bool)
        ensures
            r == (self@.entries.len() == 0),
    {
        self.entries.len() == 0
    }

    /// Current total size, per the RFC 7541 §4.1 accounting rule.
    pub fn size(&self) -> (r: usize)
        requires
            self.wf(),
        ensures
            r == entries_size(self@.entries),
            r <= self@.max_size,
    {
        self.size
    }

    /// Look up a 1-based index within the dynamic table only (the caller
    /// is responsible for subtracting the static table's length first).
    pub fn get(&self, index: usize) -> (r: Option<(&[u8], &[u8])>)
        ensures
            r is Some <==> 1 <= index <= self@.entries.len(),
            r matches Some((n, v)) ==> n@ == self@.entries[index - 1].0 && v@ == self@.entries[index
                - 1].1,
    {
        if index == 0 || index - 1 >= self.entries.len() {
            return None;
        }
        let e = &self.entries[index - 1];
        Some((e.0.as_slice(), e.1.as_slice()))
    }

    /// Insert a new entry. Per RFC 7541 §4.4, an entry larger than the
    /// table's maximum size empties the table instead of being stored.
    pub fn insert(&mut self, name: Vec<u8>, value: Vec<u8>)
        requires
            old(self).wf(),
        ensures
            final(self).wf(),
            final(self)@ == table_insert(old(self)@, name@, value@),
    {
        let ghost x = (name@, value@);
        let size = match name.len().checked_add(value.len()) {
            Some(s) => s.checked_add(ENTRY_OVERHEAD),
            None => None,
        };
        let fits = match size {
            Some(s) => s <= self.max_size,
            None => false,
        };
        if !fits {
            proof {
                lemma_evict_oversized(x, self@.entries, self.max_size as nat);
            }
            self.entries = VecDeque::new();
            self.size = 0;
            assert(self@.entries =~= Seq::<(Seq<u8>, Seq<u8>)>::empty());
            return ;
        }
        let size = size.unwrap();
        proof {
            lemma_evict_prepend(x, self@.entries, self.max_size as nat);
        }
        let budget = self.max_size - size;
        self.evict_to_fit(budget);
        let ghost kept = self@.entries;
        self.entries.push_front((name, value));
        proof {
            assert(self@.entries =~= seq![x] + kept);
            lemma_entries_size_prepend(x, kept);
        }
        self.size = self.size + size;
    }

    /// Find the best match for `(name, value)`, mirroring
    /// `static_table::find`'s `(index, exact_match)` contract, with indices
    /// already offset into the dynamic portion of the combined space.
    pub fn find(&self, name: &[u8], value: &[u8]) -> (r: Option<(usize, bool)>)
        ensures
            r == table_find(self@.entries, name@, value@),
    {
        let ghost es = self@.entries;
        let mut name_only: Option<usize> = None;
        let mut i: usize = 0;
        while i < self.entries.len()
            invariant
                i <= self.entries@.len(),
                es == self@.entries,
                es.len() == self.entries@.len(),
                first_match(es, name@, value@, true, 0) == first_match(
                    es,
                    name@,
                    value@,
                    true,
                    i as int,
                ),
                name_only is None ==> first_match(es, name@, value@, false, 0) == first_match(
                    es,
                    name@,
                    value@,
                    false,
                    i as int,
                ),
                name_only matches Some(k) ==> 1 <= k <= i && first_match(
                    es,
                    name@,
                    value@,
                    false,
                    0,
                ) == Some((k - 1) as int),
            decreases self.entries@.len() - i,
        {
            let e = &self.entries[i];
            assert(es[i as int] == (e.0@, e.1@));
            if bytes_eq(e.0.as_slice(), name) {
                if bytes_eq(e.1.as_slice(), value) {
                    return Some((i + 1, true));
                }
                if name_only.is_none() {
                    name_only = Some(i + 1);
                }
            }
            i = i + 1;
        }
        match name_only {
            Some(idx) => Some((idx, false)),
            None => None,
        }
    }
}

/// A table never holds more than its maximum size: inserting an entry and
/// changing the maximum size both leave the entries within it.
pub proof fn lemma_table_fits(t: TableView, name: Seq<u8>, value: Seq<u8>, max_size: nat)
    ensures
        entries_size(table_insert(t, name, value).entries) <= t.max_size,
        entries_size(table_set_max_size(t, max_size).entries) <= max_size,
{
    lemma_evict_fits(seq![(name, value)] + t.entries, t.max_size);
    lemma_evict_fits(t.entries, max_size);
}

/// Eviction only drops the oldest entries: what is left is a prefix of the
/// entries, most recent first.
pub proof fn lemma_evict_keeps_newest(es: EntriesView, max_size: nat)
    ensures
        evict(es, max_size).len() <= es.len(),
        evict(es, max_size) == es.take(evict(es, max_size).len() as int),
    decreases es.len(),
{
    if es.len() > 0 && entries_size(es) > max_size {
        lemma_evict_keeps_newest(es.drop_last(), max_size);
        let r = evict(es.drop_last(), max_size);
        assert(es.drop_last().take(r.len() as int) =~= es.take(r.len() as int));
    } else {
        assert(es.take(es.len() as int) =~= es);
    }
}

/// Inserting an entry that fits makes it the most recent one (index 1), with
/// the older entries behind it, the oldest evicted until the table fits.
pub proof fn lemma_insert_most_recent(t: TableView, name: Seq<u8>, value: Seq<u8>)
    requires
        entry_size_of(name, value) <= t.max_size,
    ensures
        table_insert(t, name, value).entries.len() >= 1,
        table_insert(t, name, value).entries[0] == (name, value),
        table_insert(t, name, value).entries.drop_first() == evict(
            t.entries,
            (t.max_size - entry_size_of(name, value)) as nat,
        ),
{
    lemma_evict_prepend((name, value), t.entries, t.max_size);
    let r = evict(t.entries, (t.max_size - entry_size_of(name, value)) as nat);
    assert((seq![(name, value)] + r).drop_first() =~= r);
}

/// Inserting an entry larger than the table's maximum size empties the
/// table (RFC 7541 §4.4).
pub proof fn lemma_insert_oversized(t: TableView, name: Seq<u8>, value: Seq<u8>)
    requires
        entry_size_of(name, value) > t.max_size,
    ensures
        table_insert(t, name, value).entries.len() == 0,
{
    lemma_evict_oversized((name, value), t.entries, t.max_size);
}

} // verus!
