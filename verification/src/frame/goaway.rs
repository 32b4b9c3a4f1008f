use crate::error::{
    error_code_canonical, error_code_of, error_code_value, ErrorCode, H2Error, Result,
};
use crate::frame::header::{
    decode_header_result, flags_of, frame_header_bytes, lemma_flags_view, lemma_header_roundtrip,
    lemma_top_bit, lemma_u32_be_roundtrip, mask_stream_id, push_u32_be, read_u32_be,
    stream_id_bits, u32_be_bytes, u32_from_be, Flags, FrameHeader, FrameType, FRAME_HEADER_LEN,
    MAX_MAX_FRAME_SIZE,
};
use crate::hpack::decoder::copy_bytes;
use crate::hpack::primitive::append_bytes;
use vstd::prelude::*;

verus! {

/// GOAWAY frame (RFC 9113 §6.8). Always associated with stream 0.
#[derive(Debug, Clone, PartialEq, Eq)]
pub struct GoAwayFrame {
    pub last_stream_id: u32,
    pub error_code: ErrorCode,
    pub debug_data: Vec<u8>,
}

/// A GOAWAY frame with its debug data as an octet string.
pub struct GoAwayFrameView {
    pub last_stream_id: u32,
    pub error_code: ErrorCode,
    pub debug_data: Seq<u8>,
}

impl View for GoAwayFrame {
    type V = GoAwayFrameView;

    open spec fn view(&self) -> GoAwayFrameView {
        GoAwayFrameView {
            last_stream_id: self.last_stream_id,
            error_code: self.error_code,
            debug_data: self.debug_data@,
        }
    }
}

/// The header that `encode` writes for a GOAWAY frame.
pub open spec fn goaway_frame_header(f: GoAwayFrameView) -> FrameHeader {
    FrameHeader {
        length: (8 + f.debug_data.len()) as u32,
        frame_type: FrameType::GoAway,
        flags: flags_of(0),
        stream_id: 0,
    }
}

/// The payload of a GOAWAY frame: the last stream identifier, the error
/// code, then the debug data.
pub open spec fn goaway_frame_body(f: GoAwayFrameView) -> Seq<u8> {
    u32_be_bytes(stream_id_bits(f.last_stream_id)) + u32_be_bytes(error_code_value(f.error_code))
        + f.debug_data
}

/// The encoding of a GOAWAY frame.
pub open spec fn goaway_frame_bytes(f: GoAwayFrameView) -> Seq<u8> {
    frame_header_bytes(goaway_frame_header(f)) + goaway_frame_body(f)
}

/// What decoding a GOAWAY frame body gives.
pub open spec fn decode_goaway_result(header: FrameHeader, payload: Seq<u8>) -> Result<
    GoAwayFrameView,
> {
    if header.stream_id != 0 {
        Err(H2Error::Connection(ErrorCode::ProtocolError, "GOAWAY frame must be on stream 0"))
    } else if payload.len() != header.length || payload.len() < 8 {
        Err(H2Error::Connection(ErrorCode::FrameSizeError, "GOAWAY frame too short"))
    } else {
        Ok(
            GoAwayFrameView {
                last_stream_id: stream_id_bits(u32_from_be(payload)),
                error_code: error_code_of(u32_from_be(payload.skip(4))),
                debug_data: payload.skip(8),
            },
        )
    }
}

/// A GOAWAY frame that survives encoding.
pub open spec fn goaway_frame_wf(f: GoAwayFrameView) -> bool {
    &&& f.last_stream_id < 0x80000000
    &&& error_code_canonical(f.error_code)
    &&& f.debug_data.len() + 8 <= MAX_MAX_FRAME_SIZE
}

impl GoAwayFrame {
    pub fn encode(&self, out: &mut Vec<u8>)
        requires
            self.debug_data.len() + 8 <= MAX_MAX_FRAME_SIZE,
        ensures
            final(out)@ == old(out)@ + goaway_frame_bytes(self@),
    {
        let length = 8 + self.debug_data.len() as u32;
        let flags = Flags::none();
        proof {
            lemma_flags_view(flags, 0);
            lemma_top_bit(0);
        }
        let header = FrameHeader::new(length, FrameType::GoAway, flags, 0);
        header.encode(out);
        push_u32_be(out, mask_stream_id(self.last_stream_id));
        push_u32_be(out, self.error_code.as_u32());
        append_bytes(out, self.debug_data.as_slice());
        assert(out@ =~= old(out)@ + goaway_frame_bytes(self@));
    }

    pub fn decode(header: &FrameHeader, payload: &[u8]) -> (r: Result<Self>)
        ensures
            match decode_goaway_result(*header, payload@) {
                Ok(v) => r matches Ok(f) && f@ == v,
                Err(e) => r == Err::<GoAwayFrame, H2Error>(e),
            },
    {
        if header.stream_id != 0 {
            return Err(
                H2Error::Connection(ErrorCode::ProtocolError, "GOAWAY frame must be on stream 0"),
            );
        }
        if payload.len() != header.length as usize || payload.len() < 8 {
            return Err(H2Error::Connection(ErrorCode::FrameSizeError, "GOAWAY frame too short"));
        }
        assert(payload@.skip(0) =~= payload@);
        let last_stream_id = mask_stream_id(read_u32_be(payload, 0));
        let error_code = ErrorCode::from_u32(read_u32_be(payload, 4));
        let debug = vstd::slice::slice_subrange(payload, 8, payload.len());
        Ok(GoAwayFrame { last_stream_id, error_code, debug_data: copy_bytes(debug) })
    }
}

/// Decoding the encoding of a well-formed GOAWAY frame gives it back.
pub proof fn lemma_goaway_roundtrip(f: GoAwayFrameView)
    requires
        goaway_frame_wf(f),
    ensures
        decode_header_result(goaway_frame_bytes(f)) == Ok::<FrameHeader, H2Error>(
            goaway_frame_header(f),
        ),
        decode_goaway_result(
            goaway_frame_header(f),
            goaway_frame_bytes(f).skip(FRAME_HEADER_LEN as int),
        ) == Ok::<GoAwayFrameView, H2Error>(f),
{
    let h = goaway_frame_header(f);
    let body = goaway_frame_body(f);
    lemma_header_roundtrip(h, body);
    let code_bytes = u32_be_bytes(error_code_value(f.error_code));
    lemma_u32_be_roundtrip(stream_id_bits(f.last_stream_id), code_bytes + f.debug_data);
    lemma_u32_be_roundtrip(error_code_value(f.error_code), f.debug_data);
    assert(body =~= u32_be_bytes(stream_id_bits(f.last_stream_id)) + (code_bytes + f.debug_data));
    assert(body.skip(4) =~= code_bytes + f.debug_data);
    assert(body.skip(8) =~= f.debug_data);
    crate::error::lemma_error_code_roundtrip(f.error_code);
}

} // verus!
