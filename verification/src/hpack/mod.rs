//! HPACK header compression (RFC 7541).

pub mod decoder;
pub mod dynamic_table;
pub mod encoder;
pub mod huffman;
pub mod primitive;
pub mod roundtrip;
pub mod static_table;

pub use decoder::Decoder;
pub use encoder::Encoder;

use vstd::prelude::*;
use vstd::std_specs::convert::IntoSpec;

verus! {

/// The default SETTINGS_HEADER_TABLE_SIZE / dynamic table capacity (RFC
/// 9113 §6.5.2).
pub const DEFAULT_HEADER_TABLE_SIZE: usize = 4096;

/// A single decoded (or to-be-encoded) header field.
#[derive(Debug, Clone, PartialEq, Eq)]
pub struct HeaderField {
    pub name: Vec<u8>,
    pub value: Vec<u8>,
    /// RFC 7541 §7.1.3: never re-index or re-compress this field (e.g. an
    /// `authorization` or `set-cookie` value) — forces the "literal never
    /// indexed" representation on encode.
    pub sensitive: bool,
}

/// A header field as octet strings.
pub struct HeaderFieldView {
    pub name: Seq<u8>,
    pub value: Seq<u8>,
    pub sensitive: bool,
}

impl View for HeaderField {
    type V = HeaderFieldView;

    open spec fn view(&self) -> HeaderFieldView {
        HeaderFieldView { name: self.name@, value: self.value@, sensitive: self.sensitive }
    }
}

/// The header fields of a list, as octet strings.
pub open spec fn fields_view(headers: Seq<HeaderField>) -> Seq<HeaderFieldView> {
    headers.map_values(|h: HeaderField| h@)
}

impl HeaderField {
    pub fn new<N: Into<Vec<u8>>, V: Into<Vec<u8>>>(name: N, value: V) -> (h: Self)
        ensures
            !h.sensitive,
            N::obeys_into_spec() ==> h.name == name.into_spec(),
            V::obeys_into_spec() ==> h.value == value.into_spec(),
    {
        HeaderField { name: name.into(), value: value.into(), sensitive: false }
    }

    pub fn sensitive<N: Into<Vec<u8>>, V: Into<Vec<u8>>>(name: N, value: V) -> (h: Self)
        ensures
            h.sensitive,
            N::obeys_into_spec() ==> h.name == name.into_spec(),
            V::obeys_into_spec() ==> h.value == value.into_spec(),
    {
        HeaderField { name: name.into(), value: value.into(), sensitive: true }
    }
}

} // verus!
