use crate::error::{ErrorCode, H2Error, Result};
use crate::frame::header::{
    decode_header_result, flags_of, frame_header_bytes, lemma_flags_view, lemma_header_roundtrip,
    lemma_top_bit, lemma_u32_be_roundtrip, mask_stream_id, push_u32_be, read_u32_be,
    stream_id_bits, u32_be_bytes, u32_from_be, Flags, FrameHeader, FrameType, FRAME_HEADER_LEN,
};
use vstd::prelude::*;

verus! {

/// WINDOW_UPDATE frame (RFC 9113 §6.9).
#[derive(Debug, Clone, Copy, PartialEq, Eq)]
pub struct WindowUpdateFrame {
    pub stream_id: u32,
    /// 31-bit, 1..=0x7fffffff
    pub window_size_increment: u32,
}

/// The header that `encode` writes for a WINDOW_UPDATE frame.
pub open spec fn window_update_frame_header(f: WindowUpdateFrame) -> FrameHeader {
    FrameHeader {
        length: 4,
        frame_type: FrameType::WindowUpdate,
        flags: flags_of(0),
        stream_id: f.stream_id,
    }
}

/// The encoding of a WINDOW_UPDATE frame.
pub open spec fn window_update_frame_bytes(f: WindowUpdateFrame) -> Seq<u8> {
    frame_header_bytes(window_update_frame_header(f)) + u32_be_bytes(
        stream_id_bits(f.window_size_increment),
    )
}

/// What decoding a WINDOW_UPDATE frame body gives.
pub open spec fn decode_window_update_result(header: FrameHeader, payload: Seq<u8>) -> Result<
    WindowUpdateFrame,
> {
    if header.length != 4 || payload.len() != 4 {
        Err(
            H2Error::Connection(
                ErrorCode::FrameSizeError,
                "WINDOW_UPDATE frame must be exactly 4 octets",
            ),
        )
    } else if stream_id_bits(u32_from_be(payload)) == 0 {
        if header.stream_id == 0 {
            Err(
                H2Error::Connection(
                    ErrorCode::ProtocolError,
                    "WINDOW_UPDATE increment must not be 0",
                ),
            )
        } else {
            Err(
                H2Error::Stream(
                    header.stream_id,
                    ErrorCode::ProtocolError,
                    "WINDOW_UPDATE increment must not be 0",
                ),
            )
        }
    } else {
        Ok(
            WindowUpdateFrame {
                stream_id: header.stream_id,
                window_size_increment: stream_id_bits(u32_from_be(payload)),
            },
        )
    }
}

/// A WINDOW_UPDATE frame that survives encoding: a 31-bit stream identifier
/// and an increment from 1 to `2^31 - 1`.
pub open spec fn window_update_frame_wf(f: WindowUpdateFrame) -> bool {
    f.stream_id < 0x80000000 && 0 < f.window_size_increment < 0x80000000
}

impl WindowUpdateFrame {
    pub fn encode(&self, out: &mut Vec<u8>)
        requires
            self.stream_id < 0x80000000,
        ensures
            final(out)@ == old(out)@ + window_update_frame_bytes(*self),
    {
        proof {
            lemma_top_bit(self.stream_id);
        }
        let flags = Flags::none();
        proof {
            lemma_flags_view(flags, 0);
        }
        let header = FrameHeader::new(4, FrameType::WindowUpdate, flags, self.stream_id);
        header.encode(out);
        push_u32_be(out, mask_stream_id(self.window_size_increment));
        assert(out@ =~= old(out)@ + window_update_frame_bytes(*self));
    }

    pub fn decode(header: &FrameHeader, payload: &[u8]) -> (r: Result<Self>)
        ensures
            r == decode_window_update_result(*header, payload@),
    {
        if header.length != 4 || payload.len() != 4 {
            return Err(
                H2Error::Connection(
                    ErrorCode::FrameSizeError,
                    "WINDOW_UPDATE frame must be exactly 4 octets",
                ),
            );
        }
        assert(payload@.skip(0) =~= payload@);
        let increment = mask_stream_id(read_u32_be(payload, 0));
        if increment == 0 {
            let code = ErrorCode::ProtocolError;
            return if header.stream_id == 0 {
                Err(H2Error::Connection(code, "WINDOW_UPDATE increment must not be 0"))
            } else {
                Err(H2Error::Stream(header.stream_id, code, "WINDOW_UPDATE increment must not be 0"))
            };
        }
        Ok(WindowUpdateFrame { stream_id: header.stream_id, window_size_increment: increment })
    }
}

/// Decoding the encoding of a well-formed WINDOW_UPDATE frame gives it back.
pub proof fn lemma_window_update_roundtrip(f: WindowUpdateFrame)
    requires
        window_update_frame_wf(f),
    ensures
        decode_header_result(window_update_frame_bytes(f)) == Ok::<FrameHeader, H2Error>(
            window_update_frame_header(f),
        ),
        decode_window_update_result(
            window_update_frame_header(f),
            window_update_frame_bytes(f).skip(FRAME_HEADER_LEN as int),
        ) == Ok::<WindowUpdateFrame, H2Error>(f),
{
    let h = window_update_frame_header(f);
    let v = stream_id_bits(f.window_size_increment);
    let body = u32_be_bytes(v);
    lemma_header_roundtrip(h, body);
    lemma_u32_be_roundtrip(v, Seq::empty());
    assert(body + Seq::<u8>::empty() =~= body);
}

} // verus!
