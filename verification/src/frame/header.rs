use crate::error::{ErrorCode, H2Error, Result};
use vstd::prelude::*;

verus! {

/// The 9-octet frame header shared by every HTTP/2 frame (RFC 9113 §4.1).
pub const FRAME_HEADER_LEN: usize = 9;

/// Default and hard cap for a frame's payload length, per RFC 9113 §4.2.
pub const DEFAULT_MAX_FRAME_SIZE: u32 = 16384;

pub const MAX_MAX_FRAME_SIZE: u32 = 16777215;

#[derive(Debug, Clone, Copy, PartialEq, Eq)]
pub enum FrameType {
    Data,
    Headers,
    Priority,
    RstStream,
    Settings,
    PushPromise,
    Ping,
    GoAway,
    WindowUpdate,
    Continuation,
    Unknown(u8),
}

/// The frame type that a type octet names; octets without a name are kept
/// as `Unknown`.
pub open spec fn frame_type_of(v: u8) -> FrameType {
    if v == 0x0 {
        FrameType::Data
    } else if v == 0x1 {
        FrameType::Headers
    } else if v == 0x2 {
        FrameType::Priority
    } else if v == 0x3 {
        FrameType::RstStream
    } else if v == 0x4 {
        FrameType::Settings
    } else if v == 0x5 {
        FrameType::PushPromise
    } else if v == 0x6 {
        FrameType::Ping
    } else if v == 0x7 {
        FrameType::GoAway
    } else if v == 0x8 {
        FrameType::WindowUpdate
    } else if v == 0x9 {
        FrameType::Continuation
    } else {
        FrameType::Unknown(v)
    }
}

/// The type octet of a frame type.
pub open spec fn frame_type_value(t: FrameType) -> u8 {
    match t {
        FrameType::Data => 0x0,
        FrameType::Headers => 0x1,
        FrameType::Priority => 0x2,
        FrameType::RstStream => 0x3,
        FrameType::Settings => 0x4,
        FrameType::PushPromise => 0x5,
        FrameType::Ping => 0x6,
        FrameType::GoAway => 0x7,
        FrameType::WindowUpdate => 0x8,
        FrameType::Continuation => 0x9,
        FrameType::Unknown(v) => v,
    }
}

/// A frame type is canonical when decoding its octet gives it back: every
/// named type is, and `Unknown(v)` is when `v` names no type.
pub open spec fn frame_type_canonical(t: FrameType) -> bool {
    match t {
        FrameType::Unknown(v) => v > 0x9,
        _ => true,
    }
}

impl FrameType {
    pub fn from_u8(v: u8) -> (t: Self)
        ensures
            t == frame_type_of(v),
    {
        match v {
            0x0 => FrameType::Data,
            0x1 => FrameType::Headers,
            0x2 => FrameType::Priority,
            0x3 => FrameType::RstStream,
            0x4 => FrameType::Settings,
            0x5 => FrameType::PushPromise,
            0x6 => FrameType::Ping,
            0x7 => FrameType::GoAway,
            0x8 => FrameType::WindowUpdate,
            0x9 => FrameType::Continuation,
            other => FrameType::Unknown(other),
        }
    }

    pub fn as_u8(self) -> (v: u8)
        ensures
            v == frame_type_value(self),
    {
        match self {
            FrameType::Data => 0x0,
            FrameType::Headers => 0x1,
            FrameType::Priority => 0x2,
            FrameType::RstStream => 0x3,
            FrameType::Settings => 0x4,
            FrameType::PushPromise => 0x5,
            FrameType::Ping => 0x6,
            FrameType::GoAway => 0x7,
            FrameType::WindowUpdate => 0x8,
            FrameType::Continuation => 0x9,
            FrameType::Unknown(v) => v,
        }
    }
}

/// Reading a type octet and writing it back gives the same octet.
pub proof fn lemma_frame_type_value_roundtrip(v: u8)
    ensures
        frame_type_value(frame_type_of(v)) == v,
{
}

/// Writing a canonical frame type and reading it back gives the same type.
pub proof fn lemma_frame_type_roundtrip(t: FrameType)
    requires
        frame_type_canonical(t),
    ensures
        frame_type_of(frame_type_value(t)) == t,
{
}

/// Generic flags byte. Meaning is frame-type-dependent; see each frame
/// module for the named accessors (e.g. `HeadersFrame::end_headers`).
#[derive(Debug, Clone, Copy, PartialEq, Eq, Default)]
pub struct Flags(u8);

impl View for Flags {
    type V = u8;

    closed spec fn view(&self) -> u8 {
        self.0
    }
}

/// The flags whose bits are `bits`.
pub closed spec fn flags_of(bits: u8) -> Flags {
    Flags(bits)
}

/// Flags are their bits: `flags_of` and the view undo each other.
pub proof fn lemma_flags_view(f: Flags, bits: u8)
    ensures
        flags_of(f@) == f,
        flags_of(bits)@ == bits,
{
}

/// Whether the bits of `flag` are all set in `flags`.
pub open spec fn has_flag(flags: u8, flag: u8) -> bool {
    flags & flag == flag
}

impl Flags {
    /// No flag set.
    pub fn none() -> (f: Flags)
        ensures
            f@ == 0x0,
    {
        Flags(0x0)
    }

    /// END_STREAM (DATA, HEADERS).
    pub fn end_stream() -> (f: Flags)
        ensures
            f@ == 0x1,
    {
        Flags(0x1)
    }

    /// ACK (SETTINGS, PING).
    pub fn ack() -> (f: Flags)
        ensures
            f@ == 0x1,
    {
        Flags(0x1)
    }

    /// END_HEADERS (HEADERS, PUSH_PROMISE, CONTINUATION).
    pub fn end_headers() -> (f: Flags)
        ensures
            f@ == 0x4,
    {
        Flags(0x4)
    }

    /// PADDED (DATA, HEADERS, PUSH_PROMISE).
    pub fn padded() -> (f: Flags)
        ensures
            f@ == 0x8,
    {
        Flags(0x8)
    }

    /// PRIORITY (HEADERS).
    pub fn priority() -> (f: Flags)
        ensures
            f@ == 0x20,
    {
        Flags(0x20)
    }


    pub fn bits(self) -> (b: u8)
        ensures
            b == self@,
    {
        self.0
    }

    pub fn from_bits_truncate(bits: u8) -> (f: Self)
        ensures
            f@ == bits,
            f == flags_of(bits),
    {
        Flags(bits)
    }

    pub fn contains(self, other: Flags) -> (b: bool)
        ensures
            b == has_flag(self@, other@),
    {
        self.0 & other.0 == other.0
    }
}

impl core::ops::BitOr for Flags {
    type Output = Flags;

    fn bitor(self, rhs: Flags) -> (f: Flags)
        ensures
            f@ == self@ | rhs@,
    {
        Flags(self.0 | rhs.0)
    }
}

impl vstd::std_specs::ops::BitOrSpecImpl for Flags {
    open spec fn obeys_bitor_spec() -> bool {
        true
    }

    open spec fn bitor_req(self, rhs: Flags) -> bool {
        true
    }

    open spec fn bitor_spec(self, rhs: Flags) -> Flags {
        flags_of(self@ | rhs@)
    }
}

impl core::ops::BitOrAssign for Flags {
    fn bitor_assign(&mut self, rhs: Flags)
        ensures
            final(self)@ == old(self)@ | rhs@,
    {
        self.0 = self.0 | rhs.0;
    }
}


/// The four octets of `x`, most significant first.
pub open spec fn u32_be_bytes(x: u32) -> Seq<u8> {
    seq![
        (x / 0x1000000) as u8,
        ((x / 0x10000) % 0x100) as u8,
        ((x / 0x100) % 0x100) as u8,
        (x % 0x100) as u8,
    ]
}

/// The number that the first four octets of `s` spell, most significant
/// first.
pub open spec fn u32_from_be(s: Seq<u8>) -> u32 {
    (s[0] * 0x1000000 + s[1] * 0x10000 + s[2] * 0x100 + s[3]) as u32
}

/// The two octets of `x`, most significant first.
pub open spec fn u16_be_bytes(x: u16) -> Seq<u8> {
    seq![(x / 0x100) as u8, (x % 0x100) as u8]
}

/// The number that the first two octets of `s` spell, most significant
/// first.
pub open spec fn u16_from_be(s: Seq<u8>) -> u16 {
    (s[0] * 0x100 + s[1]) as u16
}

/// The 31-bit stream identifier that `x` carries: its reserved top bit
/// cleared.
pub open spec fn stream_id_bits(x: u32) -> u32 {
    (x % 0x80000000) as u32
}

/// Reading back the octets of a 32-bit number gives the number.
pub proof fn lemma_u32_be_roundtrip(x: u32, rest: Seq<u8>)
    ensures
        u32_from_be(u32_be_bytes(x) + rest) == x,
        (u32_be_bytes(x) + rest).len() == 4 + rest.len(),
{
    let s = u32_be_bytes(x) + rest;
    let c0: u32 = x / 0x1000000;
    let c1: u32 = (x / 0x10000) % 0x100;
    let c2: u32 = (x / 0x100) % 0x100;
    let c3: u32 = x % 0x100;
    assert(c0 * 0x1000000 + c1 * 0x10000 + c2 * 0x100 + c3 == x && c0 < 0x100) by (bit_vector)
        requires
            c0 == x / 0x1000000,
            c1 == (x / 0x10000) % 0x100,
            c2 == (x / 0x100) % 0x100,
            c3 == x % 0x100,
    ;
    assert(s[0] == c0 && s[1] == c1 && s[2] == c2 && s[3] == c3);
}

/// Reading back the octets of a 16-bit number gives the number.
pub proof fn lemma_u16_be_roundtrip(x: u16, rest: Seq<u8>)
    ensures
        u16_from_be(u16_be_bytes(x) + rest) == x,
        (u16_be_bytes(x) + rest).len() == 2 + rest.len(),
{
    let s = u16_be_bytes(x) + rest;
    assert(s[0] == (x / 0x100) as u8);
}

/// Append the four octets of `x`, most significant first.
pub(crate) fn push_u32_be(out: &mut Vec<u8>, x: u32)
    ensures
        final(out)@ == old(out)@ + u32_be_bytes(x),
{
    out.push((x / 0x1000000) as u8);
    out.push(((x / 0x10000) % 0x100) as u8);
    out.push(((x / 0x100) % 0x100) as u8);
    out.push((x % 0x100) as u8);
    assert(out@ =~= old(out)@ + u32_be_bytes(x));
}

/// Append the two octets of `x`, most significant first.
pub(crate) fn push_u16_be(out: &mut Vec<u8>, x: u16)
    ensures
        final(out)@ == old(out)@ + u16_be_bytes(x),
{
    out.push((x / 0x100) as u8);
    out.push((x % 0x100) as u8);
    assert(out@ =~= old(out)@ + u16_be_bytes(x));
}

/// The 32-bit number in the four octets of `buf` from `at`.
pub(crate) fn read_u32_be(buf: &[u8], at: usize) -> (r: u32)
    requires
        at + 4 <= buf.len(),
    ensures
        r == u32_from_be(buf@.skip(at as int)),
{
    (buf[at] as u32) * 0x1000000 + (buf[at + 1] as u32) * 0x10000 + (buf[at + 2] as u32) * 0x100
        + (buf[at + 3] as u32)
}

/// The 16-bit number in the two octets of `buf` from `at`.
pub(crate) fn read_u16_be(buf: &[u8], at: usize) -> (r: u16)
    requires
        at + 2 <= buf.len(),
    ensures
        r == u16_from_be(buf@.skip(at as int)),
{
    (buf[at] as u16) * 0x100 + (buf[at + 1] as u16)
}

/// Clear the reserved top bit of a stream identifier.
pub(crate) fn mask_stream_id(x: u32) -> (r: u32)
    ensures
        r == stream_id_bits(x),
{
    assert(x & 0x7fff_ffff == x % 0x80000000) by (bit_vector);
    x & 0x7fff_ffff
}

/// The common 9-byte header preceding every frame's payload.
#[derive(Debug, Clone, Copy, PartialEq, Eq)]
pub struct FrameHeader {
    pub length: u32,
    pub frame_type: FrameType,
    pub flags: Flags,
    pub stream_id: u32,
}

/// The nine octets of a frame header (RFC 9113 §4.1): the 24-bit length,
/// the type, the flags and the stream identifier with the reserved bit
/// clear.
pub open spec fn frame_header_bytes(h: FrameHeader) -> Seq<u8> {
    seq![
        ((h.length / 0x10000) % 0x100) as u8,
        ((h.length / 0x100) % 0x100) as u8,
        (h.length % 0x100) as u8,
        frame_type_value(h.frame_type),
        h.flags@,
    ] + u32_be_bytes(stream_id_bits(h.stream_id))
}

/// What decoding a frame header from the front of `buf` gives.
pub open spec fn decode_header_result(buf: Seq<u8>) -> Result<FrameHeader> {
    if buf.len() < FRAME_HEADER_LEN {
        Err(H2Error::Incomplete)
    } else {
        Ok(
            FrameHeader {
                length: (buf[0] * 0x10000 + buf[1] * 0x100 + buf[2]) as u32,
                frame_type: frame_type_of(buf[3]),
                flags: flags_of(buf[4]),
                stream_id: stream_id_bits(u32_from_be(buf.skip(5))),
            },
        )
    }
}

/// A header that its encoding describes exactly: a 24-bit length, a
/// 31-bit stream identifier and a canonical type.
pub open spec fn header_canonical(h: FrameHeader) -> bool {
    &&& h.length <= MAX_MAX_FRAME_SIZE
    &&& h.stream_id < 0x80000000
    &&& frame_type_canonical(h.frame_type)
}

impl FrameHeader {
    pub fn new(length: u32, frame_type: FrameType, flags: Flags, stream_id: u32) -> (h: Self)
        requires
            length <= MAX_MAX_FRAME_SIZE,
            stream_id & 0x8000_0000 == 0,
        ensures
            h == (FrameHeader { length, frame_type, flags, stream_id }),
    {
        FrameHeader { length, frame_type, flags, stream_id }
    }

    pub fn encode(&self, out: &mut Vec<u8>)
        ensures
            final(out)@ == old(out)@ + frame_header_bytes(*self),
    {
        out.push(((self.length / 0x10000) % 0x100) as u8);
        out.push(((self.length / 0x100) % 0x100) as u8);
        out.push((self.length % 0x100) as u8);
        out.push(self.frame_type.as_u8());
        out.push(self.flags.bits());
        let ghost mid = out@;
        push_u32_be(out, mask_stream_id(self.stream_id));
        assert(out@ =~= old(out)@ + frame_header_bytes(*self));
    }

    pub fn decode(buf: &[u8]) -> (r: Result<Self>)
        ensures
            r == decode_header_result(buf@),
    {
        if buf.len() < FRAME_HEADER_LEN {
            return Err(H2Error::Incomplete);
        }
        let length = (buf[0] as u32) * 0x10000 + (buf[1] as u32) * 0x100 + buf[2] as u32;
        let frame_type = FrameType::from_u8(buf[3]);
        let flags = Flags::from_bits_truncate(buf[4]);
        let stream_id = mask_stream_id(read_u32_be(buf, 5));
        Ok(FrameHeader { length, frame_type, flags, stream_id })
    }
}

/// Decoding the encoding of a frame header gives it back, whatever follows
/// it, when the header is canonical.
pub proof fn lemma_header_roundtrip(h: FrameHeader, rest: Seq<u8>)
    requires
        header_canonical(h),
    ensures
        decode_header_result(frame_header_bytes(h) + rest) == Ok::<FrameHeader, H2Error>(h),
        (frame_header_bytes(h) + rest).len() == FRAME_HEADER_LEN + rest.len(),
        (frame_header_bytes(h) + rest).skip(FRAME_HEADER_LEN as int) == rest,
{
    let s = frame_header_bytes(h) + rest;
    let sid = stream_id_bits(h.stream_id);
    assert(sid == h.stream_id);
    lemma_u32_be_roundtrip(sid, rest);
    assert(s.skip(5) =~= u32_be_bytes(sid) + rest);
    assert(s.skip(9) =~= rest);
    lemma_flags_view(h.flags, 0);
    let l = h.length;
    assert(s[0] * 0x10000 + s[1] * 0x100 + s[2] == l);
}

/// Decoding an encoded header gives back its stream identifier, with the
/// reserved bit cleared, whatever its other fields and whatever follows.
pub proof fn lemma_header_bytes_stream_id(h: FrameHeader, rest: Seq<u8>)
    ensures
        decode_header_result(frame_header_bytes(h) + rest) matches Ok(g) && g.stream_id
            == stream_id_bits(h.stream_id),
{
    let s = frame_header_bytes(h) + rest;
    let sid = stream_id_bits(h.stream_id);
    lemma_u32_be_roundtrip(sid, rest);
    assert(s.skip(5) =~= u32_be_bytes(sid) + rest);
    assert(sid < 0x80000000);
}

/// A decoded header never has the reserved stream identifier bit set.
pub proof fn lemma_header_stream_id(buf: Seq<u8>)
    ensures
        decode_header_result(buf) matches Ok(h) ==> h.stream_id < 0x80000000,
{
}

/// The flags octet with END_STREAM (or ACK), END_HEADERS and PRIORITY set
/// as the three arguments say.
pub open spec fn flag_bits(end_stream: bool, end_headers: bool, priority: bool) -> u8 {
    (if end_stream {
        1u8
    } else {
        0u8
    }) | (if end_headers {
        4u8
    } else {
        0u8
    }) | (if priority {
        0x20u8
    } else {
        0u8
    })
}

/// Each flag of `flag_bits` reads back as set exactly when it was asked
/// for, and PADDED is never set.
pub proof fn lemma_flag_bits(end_stream: bool, end_headers: bool, priority: bool)
    ensures
        has_flag(flag_bits(end_stream, end_headers, priority), 1) == end_stream,
        has_flag(flag_bits(end_stream, end_headers, priority), 4) == end_headers,
        has_flag(flag_bits(end_stream, end_headers, priority), 0x20) == priority,
        !has_flag(flag_bits(end_stream, end_headers, priority), 8),
        flag_bits(end_stream, false, false) == (if end_stream {
            1u8
        } else {
            0u8
        }),
        flag_bits(false, end_headers, false) == (if end_headers {
            4u8
        } else {
            0u8
        }),
        flag_bits(false, false, false) == 0,
        flag_bits(end_stream, end_headers, priority) == ((0u8 | (if end_stream {
            1u8
        } else {
            0u8
        })) | (if end_headers {
            4u8
        } else {
            0u8
        })) | (if priority {
            0x20u8
        } else {
            0u8
        }),
{
    let a: u8 = if end_stream {
        1
    } else {
        0
    };
    let b: u8 = if end_headers {
        4
    } else {
        0
    };
    let c: u8 = if priority {
        0x20
    } else {
        0
    };
    assert((a == 0 || a == 1) && (b == 0 || b == 4) && (c == 0 || c == 0x20) ==> {
        &&& ((a | b | c) & 1 == 1) == (a == 1)
        &&& ((a | b | c) & 4 == 4) == (b == 4)
        &&& ((a | b | c) & 0x20 == 0x20) == (c == 0x20)
        &&& (a | b | c) & 8 != 8
        &&& (a | 0 | 0) == a
        &&& (0 | b | 0) == b
        &&& (0u8 | 0u8 | 0u8) == 0
        &&& ((0u8 | a) | b) | c == (a | b) | c
    }) by (bit_vector);
}

/// A stream identifier has its reserved top bit clear exactly when it is
/// below `2^31`.
pub proof fn lemma_top_bit(x: u32)
    ensures
        (x & 0x8000_0000 == 0) == (x < 0x80000000),
{
    assert((x & 0x8000_0000 == 0) == (x < 0x80000000)) by (bit_vector);
}

/// Verify a decoded length against the negotiated SETTINGS_MAX_FRAME_SIZE.
pub fn check_frame_size(length: u32, max_frame_size: u32) -> (r: Result<()>)
    ensures
        length <= max_frame_size ==> r is Ok,
        length > max_frame_size ==> r == Err::<(), H2Error>(
            H2Error::Connection(
                ErrorCode::FrameSizeError,
                "frame length exceeds SETTINGS_MAX_FRAME_SIZE",
            ),
        ),
{
    if length > max_frame_size {
        return Err(
            H2Error::Connection(
                ErrorCode::FrameSizeError,
                "frame length exceeds SETTINGS_MAX_FRAME_SIZE",
            ),
        );
    }
    Ok(())
}

/// The type codes are those of RFC 9113 §6, both ways; any other code is
/// kept as `Unknown`.
pub proof fn lemma_frame_type_registry(v: u8)
    ensures
        frame_type_value(FrameType::Data) == 0x0,
        frame_type_value(FrameType::Headers) == 0x1,
        frame_type_value(FrameType::Priority) == 0x2,
        frame_type_value(FrameType::RstStream) == 0x3,
        frame_type_value(FrameType::Settings) == 0x4,
        frame_type_value(FrameType::PushPromise) == 0x5,
        frame_type_value(FrameType::Ping) == 0x6,
        frame_type_value(FrameType::GoAway) == 0x7,
        frame_type_value(FrameType::WindowUpdate) == 0x8,
        frame_type_value(FrameType::Continuation) == 0x9,
        frame_type_of(0x0) == FrameType::Data,
        frame_type_of(0x1) == FrameType::Headers,
        frame_type_of(0x2) == FrameType::Priority,
        frame_type_of(0x3) == FrameType::RstStream,
        frame_type_of(0x4) == FrameType::Settings,
        frame_type_of(0x5) == FrameType::PushPromise,
        frame_type_of(0x6) == FrameType::Ping,
        frame_type_of(0x7) == FrameType::GoAway,
        frame_type_of(0x8) == FrameType::WindowUpdate,
        frame_type_of(0x9) == FrameType::Continuation,
        v > 0x9 ==> frame_type_of(v) == FrameType::Unknown(v) && frame_type_value(
            FrameType::Unknown(v),
        ) == v,
{
}

} // verus!
