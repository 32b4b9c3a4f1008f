//! The HPACK static table (RFC 7541 Appendix A). Indices are 1-based and
//! occupy the low end of the combined index space; the dynamic table
//! continues from `STATIC_TABLE_LEN + 1`.
use vstd::prelude::*;
use vstd::string::*;

verus! {

/// The number of entries of the static table.
pub const STATIC_TABLE_LEN: usize = 61;

/// The static-table entry at a 1-based `index`, or `None` for 0 and for
/// indices beyond the table.
pub open spec fn static_entry(index: usize) -> Option<(&'static str, &'static str)> {
    match index {
        1 => Some((":authority", "")),
        2 => Some((":method", "GET")),
        3 => Some((":method", "POST")),
        4 => Some((":path", "/")),
        5 => Some((":path", "/index.html")),
        6 => Some((":scheme", "http")),
        7 => Some((":scheme", "https")),
        8 => Some((":status", "200")),
        9 => Some((":status", "204")),
        10 => Some((":status", "206")),
        11 => Some((":status", "304")),
        12 => Some((":status", "400")),
        13 => Some((":status", "404")),
        14 => Some((":status", "500")),
        15 => Some(("accept-charset", "")),
        16 => Some(("accept-encoding", "gzip, deflate")),
        17 => Some(("accept-language", "")),
        18 => Some(("accept-ranges", "")),
        19 => Some(("accept", "")),
        20 => Some(("access-control-allow-origin", "")),
        21 => Some(("age", "")),
        22 => Some(("allow", "")),
        23 => Some(("authorization", "")),
        24 => Some(("cache-control", "")),
        25 => Some(("content-disposition", "")),
        26 => Some(("content-encoding", "")),
        27 => Some(("content-language", "")),
        28 => Some(("content-length", "")),
        29 => Some(("content-location", "")),
        30 => Some(("content-range", "")),
        31 => Some(("content-type", "")),
        32 => Some(("cookie", "")),
        33 => Some(("date", "")),
        34 => Some(("etag", "")),
        35 => Some(("expect", "")),
        36 => Some(("expires", "")),
        37 => Some(("from", "")),
        38 => Some(("host", "")),
        39 => Some(("if-match", "")),
        40 => Some(("if-modified-since", "")),
        41 => Some(("if-none-match", "")),
        42 => Some(("if-range", "")),
        43 => Some(("if-unmodified-since", "")),
        44 => Some(("last-modified", "")),
        45 => Some(("link", "")),
        46 => Some(("location", "")),
        47 => Some(("max-forwards", "")),
        48 => Some(("proxy-authenticate", "")),
        49 => Some(("proxy-authorization", "")),
        50 => Some(("range", "")),
        51 => Some(("referer", "")),
        52 => Some(("refresh", "")),
        53 => Some(("retry-after", "")),
        54 => Some(("server", "")),
        55 => Some(("set-cookie", "")),
        56 => Some(("strict-transport-security", "")),
        57 => Some(("transfer-encoding", "")),
        58 => Some(("user-agent", "")),
        59 => Some(("vary", "")),
        60 => Some(("via", "")),
        61 => Some(("www-authenticate", "")),
        _ => None,
    }
}

/// A table of header fields, each a name and a value, as octet strings.
pub type EntriesView = Seq<(Seq<u8>, Seq<u8>)>;

/// The static table as octet strings, in index order.
pub open spec fn static_entries() -> EntriesView {
    Seq::new(
        STATIC_TABLE_LEN as nat,
        |i: int|
            (
                static_entry((i + 1) as usize).unwrap().0.spec_bytes(),
                static_entry((i + 1) as usize).unwrap().1.spec_bytes(),
            ),
    )
}

/// The first position, from `from` on, whose entry has name `name` and,
/// when `exact`, value `value`.
pub open spec fn first_match(
    entries: EntriesView,
    name: Seq<u8>,
    value: Seq<u8>,
    exact: bool,
    from: int,
) -> Option<int>
    decreases entries.len() - from,
{
    if from < 0 || from >= entries.len() {
        None
    } else if entries[from].0 == name && (!exact || entries[from].1 == value) {
        Some(from)
    } else {
        first_match(entries, name, value, exact, from + 1)
    }
}

/// The best match for `(name, value)` among `entries`, as a 1-based index
/// and whether the value matched too: the first entry that matches both
/// when there is one, else the first that matches the name.
pub open spec fn table_find(entries: EntriesView, name: Seq<u8>, value: Seq<u8>) -> Option<
    (usize, bool),
> {
    match first_match(entries, name, value, true, 0) {
        Some(i) => Some(((i + 1) as usize, true)),
        None => match first_match(entries, name, value, false, 0) {
            Some(i) => Some(((i + 1) as usize, false)),
            None => None,
        },
    }
}

/// A first match lies at or after where the search starts and inside the
/// entries.
pub proof fn lemma_first_match_range(
    entries: EntriesView,
    name: Seq<u8>,
    value: Seq<u8>,
    exact: bool,
    from: int,
)
    ensures
        first_match(entries, name, value, exact, from) matches Some(i) ==> 0 <= from <= i
            < entries.len(),
{
    lemma_first_match_bound(entries, name, value, exact, from);
}

proof fn lemma_first_match_bound(
    entries: EntriesView,
    name: Seq<u8>,
    value: Seq<u8>,
    exact: bool,
    from: int,
)
    ensures
        first_match(entries, name, value, exact, from) matches Some(i) ==> 0 <= from <= i
            < entries.len() && entries[i].0 == name && (!exact || entries[i].1 == value),
    decreases entries.len() - from,
{
    if 0 <= from < entries.len() {
        lemma_first_match_bound(entries, name, value, exact, from + 1);
    }
}

/// A match found by `table_find` is a 1-based index into the entries whose
/// name matches, and whose value matches too when it says so.
pub proof fn lemma_table_find_index(entries: EntriesView, name: Seq<u8>, value: Seq<u8>)
    requires
        entries.len() <= usize::MAX,
    ensures
        table_find(entries, name, value) matches Some((idx, exact)) ==> 1 <= idx <= entries.len()
            && entries[idx - 1].0 == name && (exact ==> entries[idx - 1].1 == value),
{
    lemma_first_match_bound(entries, name, value, true, 0);
    lemma_first_match_bound(entries, name, value, false, 0);
}

/// Whether two octet strings are equal.
pub(crate) fn bytes_eq(a: &[u8], b: &[u8]) -> (r: bool)
    ensures
        r == (a@ == b@),
{
    if a.len() != b.len() {
        return false;
    }
    let mut i: usize = 0;
    while i < a.len()
        invariant
            i <= a.len(),
            a.len() == b.len(),
            forall|k: int| 0 <= k < i ==> a@[k] == b@[k],
        decreases a.len() - i,
    {
        if a[i] != b[i] {
            return false;
        }
        i = i + 1;
    }
    assert(a@ =~= b@);
    true
}

/// Look up a static-table entry by its 1-based index. Returns `None` if
/// `index` is 0 or beyond the table.
pub fn get(index: usize) -> (r: Option<(&'static str, &'static str)>)
    ensures
        r == static_entry(index),
        r is Some <==> 1 <= index <= STATIC_TABLE_LEN,
{
    match index {
        1 => Some((":authority", "")),
        2 => Some((":method", "GET")),
        3 => Some((":method", "POST")),
        4 => Some((":path", "/")),
        5 => Some((":path", "/index.html")),
        6 => Some((":scheme", "http")),
        7 => Some((":scheme", "https")),
        8 => Some((":status", "200")),
        9 => Some((":status", "204")),
        10 => Some((":status", "206")),
        11 => Some((":status", "304")),
        12 => Some((":status", "400")),
        13 => Some((":status", "404")),
        14 => Some((":status", "500")),
        15 => Some(("accept-charset", "")),
        16 => Some(("accept-encoding", "gzip, deflate")),
        17 => Some(("accept-language", "")),
        18 => Some(("accept-ranges", "")),
        19 => Some(("accept", "")),
        20 => Some(("access-control-allow-origin", "")),
        21 => Some(("age", "")),
        22 => Some(("allow", "")),
        23 => Some(("authorization", "")),
        24 => Some(("cache-control", "")),
        25 => Some(("content-disposition", "")),
        26 => Some(("content-encoding", "")),
        27 => Some(("content-language", "")),
        28 => Some(("content-length", "")),
        29 => Some(("content-location", "")),
        30 => Some(("content-range", "")),
        31 => Some(("content-type", "")),
        32 => Some(("cookie", "")),
        33 => Some(("date", "")),
        34 => Some(("etag", "")),
        35 => Some(("expect", "")),
        36 => Some(("expires", "")),
        37 => Some(("from", "")),
        38 => Some(("host", "")),
        39 => Some(("if-match", "")),
        40 => Some(("if-modified-since", "")),
        41 => Some(("if-none-match", "")),
        42 => Some(("if-range", "")),
        43 => Some(("if-unmodified-since", "")),
        44 => Some(("last-modified", "")),
        45 => Some(("link", "")),
        46 => Some(("location", "")),
        47 => Some(("max-forwards", "")),
        48 => Some(("proxy-authenticate", "")),
        49 => Some(("proxy-authorization", "")),
        50 => Some(("range", "")),
        51 => Some(("referer", "")),
        52 => Some(("refresh", "")),
        53 => Some(("retry-after", "")),
        54 => Some(("server", "")),
        55 => Some(("set-cookie", "")),
        56 => Some(("strict-transport-security", "")),
        57 => Some(("transfer-encoding", "")),
        58 => Some(("user-agent", "")),
        59 => Some(("vary", "")),
        60 => Some(("via", "")),
        61 => Some(("www-authenticate", "")),
        _ => None,
    }
}

/// Find the first static-table entry with a matching name, and, if any
/// entry also matches the value, prefer that one. Used by the encoder to
/// choose between literal-with-indexed-name and fully-indexed representations.
pub fn find(name: &[u8], value: &[u8]) -> (r: Option<(usize, bool)>)
    ensures
        r == table_find(static_entries(), name@, value@),
{
    let ghost es = static_entries();
    let mut name_only: Option<usize> = None;
    let mut i: usize = 0;
    while i < STATIC_TABLE_LEN
        invariant
            i <= STATIC_TABLE_LEN,
            es == static_entries(),
            first_match(es, name@, value@, true, 0) == first_match(es, name@, value@, true, i as int),
            name_only is None ==> first_match(es, name@, value@, false, 0) == first_match(
                es,
                name@,
                value@,
                false,
                i as int,
            ),
            name_only matches Some(k) ==> 1 <= k <= i && first_match(es, name@, value@, false, 0)
                == Some((k - 1) as int),
        decreases STATIC_TABLE_LEN - i,
    {
        let (n, v) = get(i + 1).unwrap();
        let nb = n.as_bytes();
        let vb = v.as_bytes();
        assert(es[i as int] == (nb@, vb@));
        if bytes_eq(nb, name) {
            if bytes_eq(vb, value) {
                return Some((i + 1, true));
            }
            if name_only.is_none() {
                name_only = Some(i + 1);
            }
        }
        i = i + 1;
    }
    match name_only {
        Some(idx) => Some((idx, false)),
        None => None,
    }
}

} // verus!
