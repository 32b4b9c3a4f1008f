use crate::error::{ErrorCode, H2Error, Result};
use crate::frame::header::{
    decode_header_result, flag_bits, flags_of, frame_header_bytes, has_flag, lemma_flag_bits,
    lemma_flags_view, lemma_header_roundtrip, lemma_top_bit, Flags, FrameHeader, FrameType,
    FRAME_HEADER_LEN, MAX_MAX_FRAME_SIZE,
};
use crate::hpack::decoder::copy_bytes;
use crate::hpack::primitive::append_bytes;
use vstd::prelude::*;

verus! {

/// CONTINUATION frame (RFC 9113 §6.10). Carries the overflow of a header
/// block that didn't fit in the preceding HEADERS/PUSH_PROMISE frame.
#[derive(Debug, Clone, PartialEq, Eq)]
pub struct ContinuationFrame {
    pub stream_id: u32,
    pub end_headers: bool,
    pub header_block_fragment: Vec<u8>,
}

/// A CONTINUATION frame with its fragment as an octet string.
pub struct ContinuationFrameView {
    pub stream_id: u32,
    pub end_headers: bool,
    pub header_block_fragment: Seq<u8>,
}

impl View for ContinuationFrame {
    type V = ContinuationFrameView;

    open spec fn view(&self) -> ContinuationFrameView {
        ContinuationFrameView {
            stream_id: self.stream_id,
            end_headers: self.end_headers,
            header_block_fragment: self.header_block_fragment@,
        }
    }
}

/// The header that `encode` writes for a CONTINUATION frame.
pub open spec fn continuation_frame_header(f: ContinuationFrameView) -> FrameHeader {
    FrameHeader {
        length: f.header_block_fragment.len() as u32,
        frame_type: FrameType::Continuation,
        flags: flags_of(flag_bits(false, f.end_headers, false)),
        stream_id: f.stream_id,
    }
}

/// The encoding of a CONTINUATION frame.
pub open spec fn continuation_frame_bytes(f: ContinuationFrameView) -> Seq<u8> {
    frame_header_bytes(continuation_frame_header(f)) + f.header_block_fragment
}

/// What decoding a CONTINUATION frame body gives.
pub open spec fn decode_continuation_result(header: FrameHeader, payload: Seq<u8>) -> Result<
    ContinuationFrameView,
> {
    if header.stream_id == 0 {
        Err(
            H2Error::Connection(
                ErrorCode::ProtocolError,
                "CONTINUATION frame must be associated with a stream",
            ),
        )
    } else if payload.len() != header.length {
        Err(H2Error::Incomplete)
    } else {
        Ok(
            ContinuationFrameView {
                stream_id: header.stream_id,
                end_headers: has_flag(header.flags@, 4),
                header_block_fragment: payload,
            },
        )
    }
}

/// A CONTINUATION frame that survives encoding.
pub open spec fn continuation_frame_wf(f: ContinuationFrameView) -> bool {
    0 < f.stream_id < 0x80000000 && f.header_block_fragment.len() <= MAX_MAX_FRAME_SIZE
}

impl ContinuationFrame {
    pub fn encode(&self, out: &mut Vec<u8>)
        requires
            self.header_block_fragment.len() <= MAX_MAX_FRAME_SIZE,
            self.stream_id < 0x80000000,
        ensures
            final(out)@ == old(out)@ + continuation_frame_bytes(self@),
    {
        let flags = if self.end_headers {
            Flags::end_headers()
        } else {
            Flags::none()
        };
        proof {
            lemma_flag_bits(false, self.end_headers, false);
            lemma_top_bit(self.stream_id);
            lemma_flags_view(flags, 0);
        }
        let header = FrameHeader::new(
            self.header_block_fragment.len() as u32,
            FrameType::Continuation,
            flags,
            self.stream_id,
        );
        header.encode(out);
        append_bytes(out, self.header_block_fragment.as_slice());
        assert(out@ =~= old(out)@ + continuation_frame_bytes(self@));
    }

    pub fn decode(header: &FrameHeader, payload: &[u8]) -> (r: Result<Self>)
        ensures
            match decode_continuation_result(*header, payload@) {
                Ok(v) => r matches Ok(f) && f@ == v,
                Err(e) => r == Err::<ContinuationFrame, H2Error>(e),
            },
    {
        if header.stream_id == 0 {
            return Err(
                H2Error::Connection(
                    ErrorCode::ProtocolError,
                    "CONTINUATION frame must be associated with a stream",
                ),
            );
        }
        if payload.len() != header.length as usize {
            return Err(H2Error::Incomplete);
        }
        Ok(
            ContinuationFrame {
                stream_id: header.stream_id,
                end_headers: header.flags.contains(Flags::end_headers()),
                header_block_fragment: copy_bytes(payload),
            },
        )
    }
}

/// Decoding the encoding of a well-formed CONTINUATION frame gives it back.
pub proof fn lemma_continuation_roundtrip(f: ContinuationFrameView)
    requires
        continuation_frame_wf(f),
    ensures
        decode_header_result(continuation_frame_bytes(f)) == Ok::<FrameHeader, H2Error>(
            continuation_frame_header(f),
        ),
        decode_continuation_result(
            continuation_frame_header(f),
            continuation_frame_bytes(f).skip(FRAME_HEADER_LEN as int),
        ) == Ok::<ContinuationFrameView, H2Error>(f),
{
    let h = continuation_frame_header(f);
    lemma_header_roundtrip(h, f.header_block_fragment);
    lemma_flag_bits(false, f.end_headers, false);
    lemma_flags_view(h.flags, flag_bits(false, f.end_headers, false));
}

} // verus!
