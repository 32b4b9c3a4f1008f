use crate::error::{ErrorCode, H2Error, Result};
use crate::frame::header::{
    decode_header_result, flag_bits, flags_of, frame_header_bytes, has_flag, lemma_flag_bits,
    lemma_flags_view, lemma_header_roundtrip, Flags, FrameHeader, FrameType, FRAME_HEADER_LEN,
};
use vstd::prelude::*;

verus! {

/// PING frame (RFC 9113 §6.7). Always exactly 8 octets of opaque data.
#[derive(Debug, Clone, Copy, PartialEq, Eq)]
pub struct PingFrame {
    pub ack: bool,
    pub opaque_data: [u8; 8],
}

/// A PING frame with its opaque data as an octet string.
pub struct PingFrameView {
    pub ack: bool,
    pub opaque_data: Seq<u8>,
}

impl View for PingFrame {
    type V = PingFrameView;

    open spec fn view(&self) -> PingFrameView {
        PingFrameView { ack: self.ack, opaque_data: self.opaque_data@ }
    }
}

/// The header that `encode` writes for a PING frame.
pub open spec fn ping_frame_header(f: PingFrameView) -> FrameHeader {
    FrameHeader {
        length: 8,
        frame_type: FrameType::Ping,
        flags: flags_of(flag_bits(f.ack, false, false)),
        stream_id: 0,
    }
}

/// The encoding of a PING frame.
pub open spec fn ping_frame_bytes(f: PingFrameView) -> Seq<u8> {
    frame_header_bytes(ping_frame_header(f)) + f.opaque_data
}

/// What decoding a PING frame body gives.
pub open spec fn decode_ping_result(header: FrameHeader, payload: Seq<u8>) -> Result<PingFrameView> {
    if header.stream_id != 0 {
        Err(H2Error::Connection(ErrorCode::ProtocolError, "PING frame must be on stream 0"))
    } else if header.length != 8 || payload.len() != 8 {
        Err(
            H2Error::Connection(ErrorCode::FrameSizeError, "PING frame must be exactly 8 octets"),
        )
    } else {
        Ok(PingFrameView { ack: has_flag(header.flags@, 1), opaque_data: payload })
    }
}

impl PingFrame {
    pub fn encode(&self, out: &mut Vec<u8>)
        ensures
            final(out)@ == old(out)@ + ping_frame_bytes(self@),
    {
        let flags = if self.ack {
            Flags::ack()
        } else {
            Flags::none()
        };
        proof {
            lemma_flag_bits(self.ack, false, false);
            lemma_flags_view(flags, 0);
            crate::frame::header::lemma_top_bit(0);
        }
        let header = FrameHeader::new(8, FrameType::Ping, flags, 0);
        header.encode(out);
        let ghost start = out@;
        let mut i: usize = 0;
        while i < 8
            invariant
                i <= 8,
                out@ == start + self.opaque_data@.take(i as int),
            decreases 8 - i,
        {
            out.push(self.opaque_data[i]);
            i = i + 1;
            assert(self.opaque_data@.take(i as int) =~= self.opaque_data@.take(i - 1).push(
                self.opaque_data@[i - 1],
            ));
        }
        assert(self.opaque_data@.take(8) =~= self.opaque_data@);
        assert(out@ =~= old(out)@ + ping_frame_bytes(self@));
    }

    pub fn decode(header: &FrameHeader, payload: &[u8]) -> (r: Result<Self>)
        ensures
            match decode_ping_result(*header, payload@) {
                Ok(v) => r matches Ok(f) && f@ == v,
                Err(e) => r == Err::<PingFrame, H2Error>(e),
            },
    {
        if header.stream_id != 0 {
            return Err(
                H2Error::Connection(ErrorCode::ProtocolError, "PING frame must be on stream 0"),
            );
        }
        if header.length != 8 || payload.len() != 8 {
            return Err(
                H2Error::Connection(
                    ErrorCode::FrameSizeError,
                    "PING frame must be exactly 8 octets",
                ),
            );
        }
        let opaque_data: [u8; 8] = [
            payload[0],
            payload[1],
            payload[2],
            payload[3],
            payload[4],
            payload[5],
            payload[6],
            payload[7],
        ];
        assert(opaque_data@ =~= payload@);
        Ok(PingFrame { ack: header.flags.contains(Flags::ack()), opaque_data })
    }
}

/// Decoding the encoding of a PING frame gives it back.
pub proof fn lemma_ping_roundtrip(f: PingFrameView)
    requires
        f.opaque_data.len() == 8,
    ensures
        decode_header_result(ping_frame_bytes(f)) == Ok::<FrameHeader, H2Error>(
            ping_frame_header(f),
        ),
        decode_ping_result(ping_frame_header(f), ping_frame_bytes(f).skip(FRAME_HEADER_LEN as int))
            == Ok::<PingFrameView, H2Error>(f),
{
    let h = ping_frame_header(f);
    lemma_header_roundtrip(h, f.opaque_data);
    lemma_flag_bits(f.ack, false, false);
    lemma_flags_view(h.flags, flag_bits(f.ack, false, false));
}

} // verus!
