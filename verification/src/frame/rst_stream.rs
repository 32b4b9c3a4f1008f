use crate::error::{
    error_code_canonical, error_code_of, error_code_value, ErrorCode, H2Error, Result,
};
use crate::frame::header::{
    decode_header_result, flags_of, frame_header_bytes, lemma_flags_view, lemma_header_roundtrip,
    lemma_top_bit, lemma_u32_be_roundtrip, push_u32_be, read_u32_be, u32_be_bytes, u32_from_be,
    Flags, FrameHeader, FrameType, FRAME_HEADER_LEN,
};
use vstd::prelude::*;

verus! {

/// RST_STREAM frame (RFC 9113 §6.4).
#[derive(Debug, Clone, Copy, PartialEq, Eq)]
pub struct RstStreamFrame {
    pub stream_id: u32,
    pub error_code: ErrorCode,
}

/// The header that `encode` writes for a RST_STREAM frame.
pub open spec fn rst_stream_frame_header(f: RstStreamFrame) -> FrameHeader {
    FrameHeader {
        length: 4,
        frame_type: FrameType::RstStream,
        flags: flags_of(0),
        stream_id: f.stream_id,
    }
}

/// The encoding of a RST_STREAM frame.
pub open spec fn rst_stream_frame_bytes(f: RstStreamFrame) -> Seq<u8> {
    frame_header_bytes(rst_stream_frame_header(f)) + u32_be_bytes(error_code_value(f.error_code))
}

/// What decoding a RST_STREAM frame body gives.
pub open spec fn decode_rst_stream_result(header: FrameHeader, payload: Seq<u8>) -> Result<
    RstStreamFrame,
> {
    if header.stream_id == 0 {
        Err(
            H2Error::Connection(
                ErrorCode::ProtocolError,
                "RST_STREAM frame must be associated with a stream",
            ),
        )
    } else if header.length != 4 || payload.len() != 4 {
        Err(
            H2Error::Connection(
                ErrorCode::FrameSizeError,
                "RST_STREAM frame must be exactly 4 octets",
            ),
        )
    } else {
        Ok(
            RstStreamFrame {
                stream_id: header.stream_id,
                error_code: error_code_of(u32_from_be(payload)),
            },
        )
    }
}

/// A RST_STREAM frame that survives encoding.
pub open spec fn rst_stream_frame_wf(f: RstStreamFrame) -> bool {
    0 < f.stream_id < 0x80000000 && error_code_canonical(f.error_code)
}

impl RstStreamFrame {
    pub fn encode(&self, out: &mut Vec<u8>)
        requires
            self.stream_id < 0x80000000,
        ensures
            final(out)@ == old(out)@ + rst_stream_frame_bytes(*self),
    {
        proof {
            lemma_top_bit(self.stream_id);
        }
        let flags = Flags::none();
        proof {
            lemma_flags_view(flags, 0);
        }
        let header = FrameHeader::new(4, FrameType::RstStream, flags, self.stream_id);
        header.encode(out);
        push_u32_be(out, self.error_code.as_u32());
        assert(out@ =~= old(out)@ + rst_stream_frame_bytes(*self));
    }

    pub fn decode(header: &FrameHeader, payload: &[u8]) -> (r: Result<Self>)
        ensures
            r == decode_rst_stream_result(*header, payload@),
    {
        if header.stream_id == 0 {
            return Err(
                H2Error::Connection(
                    ErrorCode::ProtocolError,
                    "RST_STREAM frame must be associated with a stream",
                ),
            );
        }
        if header.length != 4 || payload.len() != 4 {
            return Err(
                H2Error::Connection(
                    ErrorCode::FrameSizeError,
                    "RST_STREAM frame must be exactly 4 octets",
                ),
            );
        }
        let code = read_u32_be(payload, 0);
        assert(payload@.skip(0) =~= payload@);
        Ok(RstStreamFrame { stream_id: header.stream_id, error_code: ErrorCode::from_u32(code) })
    }
}

/// Decoding the encoding of a well-formed RST_STREAM frame gives it back.
pub proof fn lemma_rst_stream_roundtrip(f: RstStreamFrame)
    requires
        rst_stream_frame_wf(f),
    ensures
        decode_header_result(rst_stream_frame_bytes(f)) == Ok::<FrameHeader, H2Error>(
            rst_stream_frame_header(f),
        ),
        decode_rst_stream_result(
            rst_stream_frame_header(f),
            rst_stream_frame_bytes(f).skip(FRAME_HEADER_LEN as int),
        ) == Ok::<RstStreamFrame, H2Error>(f),
{
    let h = rst_stream_frame_header(f);
    let body = u32_be_bytes(error_code_value(f.error_code));
    lemma_header_roundtrip(h, body);
    lemma_u32_be_roundtrip(error_code_value(f.error_code), Seq::empty());
    assert(body + Seq::<u8>::empty() =~= body);
    crate::error::lemma_error_code_roundtrip(f.error_code);
}

} // verus!
