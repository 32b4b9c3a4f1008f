//! HTTP/2 frame types and the wire codec for them (RFC 9113 §4 and §6).
pub mod continuation;
pub mod data;
pub mod goaway;
pub mod header;
pub mod headers;
pub mod padding;
pub mod ping;
pub mod priority;
pub mod push_promise;
pub mod rst_stream;
pub mod settings;
pub mod window_update;

pub use continuation::ContinuationFrame;
pub use data::DataFrame;
pub use goaway::GoAwayFrame;
pub use header::{
    FrameHeader, FrameType, DEFAULT_MAX_FRAME_SIZE, FRAME_HEADER_LEN, MAX_MAX_FRAME_SIZE,
};
pub use headers::{HeadersFrame, Priority};
pub use ping::PingFrame;
pub use priority::PriorityFrame;
pub use push_promise::PushPromiseFrame;
pub use rst_stream::RstStreamFrame;
pub use settings::{Setting, SettingId, SettingsFrame};
pub use window_update::WindowUpdateFrame;

use crate::error::{H2Error, Result};
use crate::hpack::primitive::append_bytes;
use continuation::{
    continuation_frame_bytes, continuation_frame_header, continuation_frame_wf,
    decode_continuation_result, lemma_continuation_roundtrip, ContinuationFrameView,
};
use data::{data_frame_bytes, data_frame_header, data_frame_wf, decode_data_result,
    lemma_data_roundtrip, DataFrameView,
};
use goaway::{decode_goaway_result, goaway_frame_bytes, goaway_frame_header, goaway_frame_wf,
    lemma_goaway_roundtrip, GoAwayFrameView,
};
use header::{decode_header_result, flags_of, lemma_header_bytes_stream_id, stream_id_bits, frame_header_bytes, frame_type_canonical,
    lemma_flags_view, lemma_header_roundtrip, Flags,
};
use headers::{decode_headers_result, headers_frame_body, headers_frame_bytes,
    headers_frame_header, headers_frame_wf, lemma_headers_roundtrip, HeadersFrameView,
};
use ping::{decode_ping_result, lemma_ping_roundtrip, ping_frame_bytes, ping_frame_header,
    PingFrameView,
};
use priority::{decode_priority_frame_result, lemma_priority_frame_roundtrip,
    priority_frame_bytes, priority_frame_header, priority_frame_wf,
};
use push_promise::{decode_push_promise_result, lemma_push_promise_roundtrip,
    push_promise_frame_bytes, push_promise_frame_header, push_promise_frame_wf,
    PushPromiseFrameView,
};
use rst_stream::{decode_rst_stream_result, lemma_rst_stream_roundtrip, rst_stream_frame_bytes,
    rst_stream_frame_header, rst_stream_frame_wf,
};
use settings::{decode_settings_result, lemma_settings_roundtrip, settings_frame_bytes,
    settings_frame_header, settings_frame_wf, SettingsFrameView,
};
use vstd::prelude::*;
use window_update::{decode_window_update_result, lemma_window_update_roundtrip,
    window_update_frame_bytes, window_update_frame_header, window_update_frame_wf,
};

verus! {

/// Any HTTP/2 frame, decoded from its type-specific payload.
///
/// Unknown frame types (RFC 9113 §4.1: "implementations MUST ignore and
/// discard frames of unknown types") are preserved as `Unknown` rather than
/// rejected, so callers can choose to log or drop them.
#[derive(Debug, Clone, PartialEq, Eq)]
pub enum Frame {
    Data(DataFrame),
    Headers(HeadersFrame),
    Priority(PriorityFrame),
    RstStream(RstStreamFrame),
    Settings(SettingsFrame),
    PushPromise(PushPromiseFrame),
    Ping(PingFrame),
    GoAway(GoAwayFrame),
    WindowUpdate(WindowUpdateFrame),
    Continuation(ContinuationFrame),
    Unknown { frame_type: u8, flags: Flags, stream_id: u32, payload: Vec<u8> },
}

/// A frame with its byte buffers as sequences.
pub enum FrameView {
    Data(DataFrameView),
    Headers(HeadersFrameView),
    Priority(PriorityFrame),
    RstStream(RstStreamFrame),
    Settings(SettingsFrameView),
    PushPromise(PushPromiseFrameView),
    Ping(PingFrameView),
    GoAway(GoAwayFrameView),
    WindowUpdate(WindowUpdateFrame),
    Continuation(ContinuationFrameView),
    Unknown { frame_type: u8, flags: u8, stream_id: u32, payload: Seq<u8> },
}

impl View for Frame {
    type V = FrameView;

    open spec fn view(&self) -> FrameView {
        match self {
            Frame::Data(f) => FrameView::Data(f@),
            Frame::Headers(f) => FrameView::Headers(f@),
            Frame::Priority(f) => FrameView::Priority(*f),
            Frame::RstStream(f) => FrameView::RstStream(*f),
            Frame::Settings(f) => FrameView::Settings(f@),
            Frame::PushPromise(f) => FrameView::PushPromise(f@),
            Frame::Ping(f) => FrameView::Ping(f@),
            Frame::GoAway(f) => FrameView::GoAway(f@),
            Frame::WindowUpdate(f) => FrameView::WindowUpdate(*f),
            Frame::Continuation(f) => FrameView::Continuation(f@),
            Frame::Unknown { frame_type, flags, stream_id, payload } => FrameView::Unknown {
                frame_type: *frame_type,
                flags: flags@,
                stream_id: *stream_id,
                payload: payload@,
            },
        }
    }
}

/// The header that `encode` writes for a frame of an unknown type.
pub open spec fn unknown_frame_header(
    frame_type: u8,
    flags: u8,
    stream_id: u32,
    payload: Seq<u8>,
) -> FrameHeader {
    FrameHeader {
        length: payload.len() as u32,
        frame_type: FrameType::Unknown(frame_type),
        flags: flags_of(flags),
        stream_id,
    }
}

/// The header that `encode` writes for a frame.
pub open spec fn frame_header(f: FrameView) -> FrameHeader {
    match f {
        FrameView::Data(g) => data_frame_header(g),
        FrameView::Headers(g) => headers_frame_header(g),
        FrameView::Priority(g) => priority_frame_header(g),
        FrameView::RstStream(g) => rst_stream_frame_header(g),
        FrameView::Settings(g) => settings_frame_header(g),
        FrameView::PushPromise(g) => push_promise_frame_header(g),
        FrameView::Ping(g) => ping_frame_header(g),
        FrameView::GoAway(g) => goaway_frame_header(g),
        FrameView::WindowUpdate(g) => window_update_frame_header(g),
        FrameView::Continuation(g) => continuation_frame_header(g),
        FrameView::Unknown { frame_type, flags, stream_id, payload } => unknown_frame_header(
            frame_type,
            flags,
            stream_id,
            payload,
        ),
    }
}

/// The encoding of a frame: its header, then its payload.
pub open spec fn frame_bytes(f: FrameView) -> Seq<u8> {
    match f {
        FrameView::Data(g) => data_frame_bytes(g),
        FrameView::Headers(g) => headers_frame_bytes(g),
        FrameView::Priority(g) => priority_frame_bytes(g),
        FrameView::RstStream(g) => rst_stream_frame_bytes(g),
        FrameView::Settings(g) => settings_frame_bytes(g),
        FrameView::PushPromise(g) => push_promise_frame_bytes(g),
        FrameView::Ping(g) => ping_frame_bytes(g),
        FrameView::GoAway(g) => goaway_frame_bytes(g),
        FrameView::WindowUpdate(g) => window_update_frame_bytes(g),
        FrameView::Continuation(g) => continuation_frame_bytes(g),
        FrameView::Unknown { frame_type, flags, stream_id, payload } => frame_header_bytes(
            unknown_frame_header(frame_type, flags, stream_id, payload),
        ) + payload,
    }
}

/// What decoding a frame body of the type that `header` names gives.
pub open spec fn decode_frame_result(header: FrameHeader, payload: Seq<u8>) -> Result<FrameView> {
    match header.frame_type {
        FrameType::Data => match decode_data_result(header, payload) {
            Ok(g) => Ok(FrameView::Data(g)),
            Err(e) => Err(e),
        },
        FrameType::Headers => match decode_headers_result(header, payload) {
            Ok(g) => Ok(FrameView::Headers(g)),
            Err(e) => Err(e),
        },
        FrameType::Priority => match decode_priority_frame_result(header, payload) {
            Ok(g) => Ok(FrameView::Priority(g)),
            Err(e) => Err(e),
        },
        FrameType::RstStream => match decode_rst_stream_result(header, payload) {
            Ok(g) => Ok(FrameView::RstStream(g)),
            Err(e) => Err(e),
        },
        FrameType::Settings => match decode_settings_result(header, payload) {
            Ok(g) => Ok(FrameView::Settings(g)),
            Err(e) => Err(e),
        },
        FrameType::PushPromise => match decode_push_promise_result(header, payload) {
            Ok(g) => Ok(FrameView::PushPromise(g)),
            Err(e) => Err(e),
        },
        FrameType::Ping => match decode_ping_result(header, payload) {
            Ok(g) => Ok(FrameView::Ping(g)),
            Err(e) => Err(e),
        },
        FrameType::GoAway => match decode_goaway_result(header, payload) {
            Ok(g) => Ok(FrameView::GoAway(g)),
            Err(e) => Err(e),
        },
        FrameType::WindowUpdate => match decode_window_update_result(header, payload) {
            Ok(g) => Ok(FrameView::WindowUpdate(g)),
            Err(e) => Err(e),
        },
        FrameType::Continuation => match decode_continuation_result(header, payload) {
            Ok(g) => Ok(FrameView::Continuation(g)),
            Err(e) => Err(e),
        },
        FrameType::Unknown(t) => Ok(
            FrameView::Unknown {
                frame_type: t,
                flags: header.flags@,
                stream_id: header.stream_id,
                payload,
            },
        ),
    }
}

/// The stream a frame belongs to; 0 for the connection-level frames.
pub open spec fn frame_stream_id(f: FrameView) -> u32 {
    match f {
        FrameView::Data(g) => g.stream_id,
        FrameView::Headers(g) => g.stream_id,
        FrameView::Priority(g) => g.stream_id,
        FrameView::RstStream(g) => g.stream_id,
        FrameView::Settings(_) => 0,
        FrameView::PushPromise(g) => g.stream_id,
        FrameView::Ping(_) => 0,
        FrameView::GoAway(_) => 0,
        FrameView::WindowUpdate(g) => g.stream_id,
        FrameView::Continuation(g) => g.stream_id,
        FrameView::Unknown { stream_id, .. } => stream_id,
    }
}

/// A frame that `encode` can write: its payload fits a frame and its stream
/// identifier fits 31 bits.
pub open spec fn frame_encodable(f: FrameView) -> bool {
    match f {
        FrameView::Data(g) => g.data.len() <= MAX_MAX_FRAME_SIZE && g.stream_id < 0x80000000,
        FrameView::Headers(g) => headers_frame_body(g).len() <= MAX_MAX_FRAME_SIZE && g.stream_id
            < 0x80000000,
        FrameView::Priority(g) => g.stream_id < 0x80000000,
        FrameView::RstStream(g) => g.stream_id < 0x80000000,
        FrameView::Settings(g) => g.settings.len() * 6 <= MAX_MAX_FRAME_SIZE,
        FrameView::PushPromise(g) => g.header_block_fragment.len() + 4 <= MAX_MAX_FRAME_SIZE
            && g.stream_id < 0x80000000,
        FrameView::Ping(_) => true,
        FrameView::GoAway(g) => g.debug_data.len() + 8 <= MAX_MAX_FRAME_SIZE,
        FrameView::WindowUpdate(g) => g.stream_id < 0x80000000,
        FrameView::Continuation(g) => g.header_block_fragment.len() <= MAX_MAX_FRAME_SIZE
            && g.stream_id < 0x80000000,
        FrameView::Unknown { stream_id, payload, .. } => payload.len() <= MAX_MAX_FRAME_SIZE
            && stream_id < 0x80000000,
    }
}

/// A frame that survives encoding and decoding unchanged.
pub open spec fn frame_wf(f: FrameView) -> bool {
    match f {
        FrameView::Data(g) => data_frame_wf(g),
        FrameView::Headers(g) => headers_frame_wf(g),
        FrameView::Priority(g) => priority_frame_wf(g),
        FrameView::RstStream(g) => rst_stream_frame_wf(g),
        FrameView::Settings(g) => settings_frame_wf(g),
        FrameView::PushPromise(g) => push_promise_frame_wf(g),
        FrameView::Ping(g) => g.opaque_data.len() == 8,
        FrameView::GoAway(g) => goaway_frame_wf(g),
        FrameView::WindowUpdate(g) => window_update_frame_wf(g),
        FrameView::Continuation(g) => continuation_frame_wf(g),
        FrameView::Unknown { frame_type, stream_id, payload, .. } => {
            &&& frame_type_canonical(FrameType::Unknown(frame_type))
            &&& payload.len() <= MAX_MAX_FRAME_SIZE
            &&& stream_id < 0x80000000
        },
    }
}

impl Frame {
    /// Decode a single frame given its already-parsed header and exactly
    /// `header.length` bytes of payload.
    pub fn decode(header: &FrameHeader, payload: &[u8]) -> (r: Result<Frame>)
        ensures
            match decode_frame_result(*header, payload@) {
                Ok(v) => r matches Ok(f) && f@ == v,
                Err(e) => r == Err::<Frame, H2Error>(e),
            },
    {
        match header.frame_type {
            FrameType::Data => match DataFrame::decode(header, payload) {
                Ok(f) => Ok(Frame::Data(f)),
                Err(e) => Err(e),
            },
            FrameType::Headers => match HeadersFrame::decode(header, payload) {
                Ok(f) => Ok(Frame::Headers(f)),
                Err(e) => Err(e),
            },
            FrameType::Priority => match PriorityFrame::decode(header, payload) {
                Ok(f) => Ok(Frame::Priority(f)),
                Err(e) => Err(e),
            },
            FrameType::RstStream => match RstStreamFrame::decode(header, payload) {
                Ok(f) => Ok(Frame::RstStream(f)),
                Err(e) => Err(e),
            },
            FrameType::Settings => match SettingsFrame::decode(header, payload) {
                Ok(f) => Ok(Frame::Settings(f)),
                Err(e) => Err(e),
            },
            FrameType::PushPromise => match PushPromiseFrame::decode(header, payload) {
                Ok(f) => Ok(Frame::PushPromise(f)),
                Err(e) => Err(e),
            },
            FrameType::Ping => match PingFrame::decode(header, payload) {
                Ok(f) => Ok(Frame::Ping(f)),
                Err(e) => Err(e),
            },
            FrameType::GoAway => match GoAwayFrame::decode(header, payload) {
                Ok(f) => Ok(Frame::GoAway(f)),
                Err(e) => Err(e),
            },
            FrameType::WindowUpdate => match WindowUpdateFrame::decode(header, payload) {
                Ok(f) => Ok(Frame::WindowUpdate(f)),
                Err(e) => Err(e),
            },
            FrameType::Continuation => match ContinuationFrame::decode(header, payload) {
                Ok(f) => Ok(Frame::Continuation(f)),
                Err(e) => Err(e),
            },
            FrameType::Unknown(t) => Ok(
                Frame::Unknown {
                    frame_type: t,
                    flags: header.flags,
                    stream_id: header.stream_id,
                    payload: vstd::slice::slice_to_vec(payload),
                },
            ),
        }
    }

    pub fn encode(&self, out: &mut Vec<u8>)
        requires
            frame_encodable(self@),
        ensures
            final(out)@ == old(out)@ + frame_bytes(self@),
    {
        match self {
            Frame::Data(f) => f.encode(out),
            Frame::Headers(f) => f.encode(out),
            Frame::Priority(f) => f.encode(out),
            Frame::RstStream(f) => f.encode(out),
            Frame::Settings(f) => f.encode(out),
            Frame::PushPromise(f) => f.encode(out),
            Frame::Ping(f) => f.encode(out),
            Frame::GoAway(f) => f.encode(out),
            Frame::WindowUpdate(f) => f.encode(out),
            Frame::Continuation(f) => f.encode(out),
            Frame::Unknown { frame_type, flags, stream_id, payload } => {
                assert(*stream_id < 0x80000000 ==> *stream_id & 0x8000_0000 == 0) by (bit_vector);
                proof {
                    lemma_flags_view(*flags, flags@);
                }
                let h = FrameHeader::new(
                    payload.len() as u32,
                    FrameType::Unknown(*frame_type),
                    *flags,
                    *stream_id,
                );
                h.encode(out);
                append_bytes(out, payload.as_slice());
                assert(out@ =~= old(out)@ + frame_bytes(self@));
            },
        }
    }

    pub fn stream_id(&self) -> (id: u32)
        ensures
            id == frame_stream_id(self@),
    {
        match self {
            Frame::Data(f) => f.stream_id,
            Frame::Headers(f) => f.stream_id,
            Frame::Priority(f) => f.stream_id,
            Frame::RstStream(f) => f.stream_id,
            Frame::Settings(_) => 0,
            Frame::PushPromise(f) => f.stream_id,
            Frame::Ping(_) => 0,
            Frame::GoAway(_) => 0,
            Frame::WindowUpdate(f) => f.stream_id,
            Frame::Continuation(f) => f.stream_id,
            Frame::Unknown { stream_id, .. } => *stream_id,
        }
    }
}

/// Decoding the header and then the payload of an encoded well-formed frame
/// gives the frame back, whatever its type.
pub proof fn lemma_frame_roundtrip(f: FrameView)
    requires
        frame_wf(f),
    ensures
        decode_header_result(frame_bytes(f)) == Ok::<FrameHeader, H2Error>(frame_header(f)),
        decode_frame_result(frame_header(f), frame_bytes(f).skip(FRAME_HEADER_LEN as int)) == Ok::<
            FrameView,
            H2Error,
        >(f),
{
    match f {
        FrameView::Data(g) => lemma_data_roundtrip(g),
        FrameView::Headers(g) => lemma_headers_roundtrip(g),
        FrameView::Priority(g) => lemma_priority_frame_roundtrip(g),
        FrameView::RstStream(g) => lemma_rst_stream_roundtrip(g),
        FrameView::Settings(g) => lemma_settings_roundtrip(g),
        FrameView::PushPromise(g) => lemma_push_promise_roundtrip(g),
        FrameView::Ping(g) => lemma_ping_roundtrip(g),
        FrameView::GoAway(g) => lemma_goaway_roundtrip(g),
        FrameView::WindowUpdate(g) => lemma_window_update_roundtrip(g),
        FrameView::Continuation(g) => lemma_continuation_roundtrip(g),
        FrameView::Unknown { frame_type, flags, stream_id, payload } => {
            let h = unknown_frame_header(frame_type, flags, stream_id, payload);
            lemma_flags_view(h.flags, flags);
            lemma_header_roundtrip(h, payload);
        },
    }
}

/// A decoded frame belongs to the stream that its header names.
pub proof fn lemma_decoded_frame_stream_id(header: FrameHeader, payload: Seq<u8>)
    requires
        decode_frame_result(header, payload) is Ok,
    ensures
        frame_stream_id(decode_frame_result(header, payload)->Ok_0) == header.stream_id,
{
}

/// A frame of an unknown type is never rejected: it decodes to its type
/// code, its flags, its header's stream and its payload as they are (RFC
/// 9113 §4.1).
pub proof fn lemma_unknown_frame_kept(header: FrameHeader, payload: Seq<u8>)
    requires
        header.frame_type is Unknown,
    ensures
        decode_frame_result(header, payload) == Ok::<FrameView, H2Error>(
            FrameView::Unknown {
                frame_type: header.frame_type->Unknown_0,
                flags: header.flags@,
                stream_id: header.stream_id,
                payload,
            },
        ),
{
}

/// The payload that follows the header in the encoding of a frame.
pub open spec fn frame_payload_bytes(f: FrameView) -> Seq<u8> {
    match f {
        FrameView::Data(g) => g.data,
        FrameView::Headers(g) => headers_frame_body(g),
        FrameView::Priority(g) => headers::priority_bytes(g.priority),
        FrameView::RstStream(g) => header::u32_be_bytes(
            crate::error::error_code_value(g.error_code),
        ),
        FrameView::Settings(g) => settings::settings_bytes(g.settings),
        FrameView::PushPromise(g) => push_promise::push_promise_frame_body(g),
        FrameView::Ping(g) => g.opaque_data,
        FrameView::GoAway(g) => goaway::goaway_frame_body(g),
        FrameView::WindowUpdate(g) => header::u32_be_bytes(stream_id_bits(g.window_size_increment)),
        FrameView::Continuation(g) => g.header_block_fragment,
        FrameView::Unknown { payload, .. } => payload,
    }
}

/// The encoding of a frame is its header's encoding, then its payload.
pub proof fn lemma_frame_bytes_split(f: FrameView)
    ensures
        frame_bytes(f) == frame_header_bytes(frame_header(f)) + frame_payload_bytes(f),
{
}

/// An encodable frame's header names the frame's stream.
proof fn lemma_frame_header_names_stream(f: FrameView)
    requires
        frame_encodable(f),
    ensures
        frame_header(f).stream_id == frame_stream_id(f),
        frame_header(f).stream_id < 0x80000000,
{
}

/// The stream identifier of a frame is the one in the header that its
/// encoding starts with: 0 for SETTINGS, PING and GOAWAY, the frame's own
/// otherwise.
pub proof fn lemma_encoded_frame_stream_id(f: FrameView)
    requires
        frame_encodable(f),
    ensures
        frame_header(f).stream_id == frame_stream_id(f),
        decode_header_result(frame_bytes(f)) matches Ok(h) && h.stream_id == frame_stream_id(f),
{
    lemma_frame_header_names_stream(f);
    lemma_frame_bytes_split(f);
    lemma_header_bytes_stream_id(frame_header(f), frame_payload_bytes(f));
    assert(stream_id_bits(frame_header(f).stream_id) == frame_header(f).stream_id);
}

} // verus!
