use crate::error::{ErrorCode, H2Error, Result};
use crate::frame::header::{
    decode_header_result, flags_of, frame_header_bytes, lemma_flags_view, lemma_header_roundtrip,
    lemma_top_bit, Flags, FrameHeader, FrameType, FRAME_HEADER_LEN,
};
use crate::frame::headers::{
    decode_priority_result, lemma_priority_roundtrip, priority_bytes, Priority,
};
use vstd::prelude::*;

verus! {

/// PRIORITY frame (RFC 9113 §6.3). Deprecated by RFC 9113 but still a valid
/// frame type that implementations must be able to parse.
#[derive(Debug, Clone, Copy, PartialEq, Eq)]
pub struct PriorityFrame {
    pub stream_id: u32,
    pub priority: Priority,
}

/// The header that `encode` writes for a PRIORITY frame.
pub open spec fn priority_frame_header(f: PriorityFrame) -> FrameHeader {
    FrameHeader {
        length: 5,
        frame_type: FrameType::Priority,
        flags: flags_of(0),
        stream_id: f.stream_id,
    }
}

/// The encoding of a PRIORITY frame.
pub open spec fn priority_frame_bytes(f: PriorityFrame) -> Seq<u8> {
    frame_header_bytes(priority_frame_header(f)) + priority_bytes(f.priority)
}

/// What decoding a PRIORITY frame body gives.
pub open spec fn decode_priority_frame_result(header: FrameHeader, payload: Seq<u8>) -> Result<
    PriorityFrame,
> {
    if header.stream_id == 0 {
        Err(
            H2Error::Connection(
                ErrorCode::ProtocolError,
                "PRIORITY frame must be associated with a stream",
            ),
        )
    } else if header.length != 5 || payload.len() != 5 {
        Err(
            H2Error::Stream(
                header.stream_id,
                ErrorCode::FrameSizeError,
                "PRIORITY frame must be exactly 5 octets",
            ),
        )
    } else {
        match decode_priority_result(payload) {
            Ok(p) => Ok(PriorityFrame { stream_id: header.stream_id, priority: p }),
            Err(e) => Err(e),
        }
    }
}

/// A PRIORITY frame that survives encoding.
pub open spec fn priority_frame_wf(f: PriorityFrame) -> bool {
    0 < f.stream_id < 0x80000000 && f.priority.dependency < 0x80000000
}

impl PriorityFrame {
    pub fn encode(&self, out: &mut Vec<u8>)
        requires
            self.stream_id < 0x80000000,
        ensures
            final(out)@ == old(out)@ + priority_frame_bytes(*self),
    {
        proof {
            lemma_top_bit(self.stream_id);
        }
        let flags = Flags::none();
        proof {
            lemma_flags_view(flags, 0);
        }
        let header = FrameHeader::new(5, FrameType::Priority, flags, self.stream_id);
        header.encode(out);
        self.priority.encode(out);
        assert(out@ =~= old(out)@ + priority_frame_bytes(*self));
    }

    pub fn decode(header: &FrameHeader, payload: &[u8]) -> (r: Result<Self>)
        ensures
            r == decode_priority_frame_result(*header, payload@),
    {
        if header.stream_id == 0 {
            return Err(
                H2Error::Connection(
                    ErrorCode::ProtocolError,
                    "PRIORITY frame must be associated with a stream",
                ),
            );
        }
        if header.length != 5 || payload.len() != 5 {
            return Err(
                H2Error::Stream(
                    header.stream_id,
                    ErrorCode::FrameSizeError,
                    "PRIORITY frame must be exactly 5 octets",
                ),
            );
        }
        let priority = match Priority::decode(payload) {
            Ok(p) => p,
            Err(e) => {
                return Err(e);
            },
        };
        Ok(PriorityFrame { stream_id: header.stream_id, priority })
    }
}

/// Decoding the encoding of a well-formed PRIORITY frame gives it back.
pub proof fn lemma_priority_frame_roundtrip(f: PriorityFrame)
    requires
        priority_frame_wf(f),
    ensures
        decode_header_result(priority_frame_bytes(f)) == Ok::<FrameHeader, H2Error>(
            priority_frame_header(f),
        ),
        decode_priority_frame_result(
            priority_frame_header(f),
            priority_frame_bytes(f).skip(FRAME_HEADER_LEN as int),
        ) == Ok::<PriorityFrame, H2Error>(f),
{
    let h = priority_frame_header(f);
    let body = priority_bytes(f.priority);
    lemma_header_roundtrip(h, body);
    lemma_priority_roundtrip(f.priority, Seq::empty());
    assert(body + Seq::<u8>::empty() =~= body);
}

} // verus!
