use crate::error::{ErrorCode, H2Error, Result};
use crate::frame::header::{
    decode_header_result, flag_bits, flags_of, frame_header_bytes, has_flag, lemma_flag_bits,
    lemma_flags_view, lemma_header_roundtrip, lemma_top_bit, lemma_u32_be_roundtrip,
    mask_stream_id, push_u32_be, read_u32_be, stream_id_bits, u32_be_bytes, u32_from_be, Flags,
    FrameHeader, FrameType, FRAME_HEADER_LEN, MAX_MAX_FRAME_SIZE,
};
use crate::frame::padding::{lemma_padding_roundtrip, padded_bytes, strip_padding, strip_padding_result};
use crate::hpack::decoder::copy_bytes;
use crate::hpack::primitive::append_bytes;
use vstd::prelude::*;

verus! {

/// PUSH_PROMISE frame (RFC 9113 §6.6).
#[derive(Debug, Clone, PartialEq, Eq)]
pub struct PushPromiseFrame {
    pub stream_id: u32,
    pub end_headers: bool,
    pub promised_stream_id: u32,
    pub header_block_fragment: Vec<u8>,
}

/// A PUSH_PROMISE frame with its fragment as an octet string.
pub struct PushPromiseFrameView {
    pub stream_id: u32,
    pub end_headers: bool,
    pub promised_stream_id: u32,
    pub header_block_fragment: Seq<u8>,
}

impl View for PushPromiseFrame {
    type V = PushPromiseFrameView;

    open spec fn view(&self) -> PushPromiseFrameView {
        PushPromiseFrameView {
            stream_id: self.stream_id,
            end_headers: self.end_headers,
            promised_stream_id: self.promised_stream_id,
            header_block_fragment: self.header_block_fragment@,
        }
    }
}

/// The payload that `encode` writes: the promised stream identifier, then
/// the fragment, unpadded.
pub open spec fn push_promise_frame_body(f: PushPromiseFrameView) -> Seq<u8> {
    u32_be_bytes(stream_id_bits(f.promised_stream_id)) + f.header_block_fragment
}

/// The header that `encode` writes for a PUSH_PROMISE frame.
pub open spec fn push_promise_frame_header(f: PushPromiseFrameView) -> FrameHeader {
    FrameHeader {
        length: push_promise_frame_body(f).len() as u32,
        frame_type: FrameType::PushPromise,
        flags: flags_of(flag_bits(false, f.end_headers, false)),
        stream_id: f.stream_id,
    }
}

/// The encoding of a PUSH_PROMISE frame.
pub open spec fn push_promise_frame_bytes(f: PushPromiseFrameView) -> Seq<u8> {
    frame_header_bytes(push_promise_frame_header(f)) + push_promise_frame_body(f)
}

/// What decoding a PUSH_PROMISE frame body gives.
pub open spec fn decode_push_promise_result(header: FrameHeader, payload: Seq<u8>) -> Result<
    PushPromiseFrameView,
> {
    if header.stream_id == 0 {
        Err(
            H2Error::Connection(
                ErrorCode::ProtocolError,
                "PUSH_PROMISE frame must be associated with a stream",
            ),
        )
    } else if payload.len() != header.length {
        Err(H2Error::Incomplete)
    } else {
        match strip_padding_result(header, payload) {
            Err(e) => Err(e),
            Ok((unpadded, _)) => if unpadded.len() < 4 {
                Err(
                    H2Error::Connection(
                        ErrorCode::FrameSizeError,
                        "PUSH_PROMISE frame too short for promised stream id",
                    ),
                )
            } else {
                Ok(
                    PushPromiseFrameView {
                        stream_id: header.stream_id,
                        end_headers: has_flag(header.flags@, 4),
                        promised_stream_id: stream_id_bits(u32_from_be(unpadded)),
                        header_block_fragment: unpadded.skip(4),
                    },
                )
            },
        }
    }
}

/// A PUSH_PROMISE frame that survives encoding.
pub open spec fn push_promise_frame_wf(f: PushPromiseFrameView) -> bool {
    &&& 0 < f.stream_id < 0x80000000
    &&& f.promised_stream_id < 0x80000000
    &&& push_promise_frame_body(f).len() <= MAX_MAX_FRAME_SIZE
}

impl PushPromiseFrame {
    pub fn encode(&self, out: &mut Vec<u8>)
        requires
            self.header_block_fragment.len() + 4 <= MAX_MAX_FRAME_SIZE,
            self.stream_id < 0x80000000,
        ensures
            final(out)@ == old(out)@ + push_promise_frame_bytes(self@),
    {
        let flags = if self.end_headers {
            Flags::end_headers()
        } else {
            Flags::none()
        };
        proof {
            lemma_flag_bits(false, self.end_headers, false);
            lemma_flags_view(flags, 0);
            lemma_top_bit(self.stream_id);
        }
        let mut body: Vec<u8> = Vec::with_capacity(4 + self.header_block_fragment.len());
        push_u32_be(&mut body, mask_stream_id(self.promised_stream_id));
        append_bytes(&mut body, self.header_block_fragment.as_slice());
        assert(body@ =~= push_promise_frame_body(self@));
        let header = FrameHeader::new(
            body.len() as u32,
            FrameType::PushPromise,
            flags,
            self.stream_id,
        );
        header.encode(out);
        append_bytes(out, body.as_slice());
        assert(out@ =~= old(out)@ + push_promise_frame_bytes(self@));
    }

    pub fn decode(header: &FrameHeader, payload: &[u8]) -> (r: Result<Self>)
        ensures
            match decode_push_promise_result(*header, payload@) {
                Ok(v) => r matches Ok(f) && f@ == v,
                Err(e) => r == Err::<PushPromiseFrame, H2Error>(e),
            },
    {
        if header.stream_id == 0 {
            return Err(
                H2Error::Connection(
                    ErrorCode::ProtocolError,
                    "PUSH_PROMISE frame must be associated with a stream",
                ),
            );
        }
        if payload.len() != header.length as usize {
            return Err(H2Error::Incomplete);
        }
        let (unpadded, _pad_len) = match strip_padding(header, payload) {
            Ok(x) => x,
            Err(e) => {
                return Err(e);
            },
        };
        if unpadded.len() < 4 {
            return Err(
                H2Error::Connection(
                    ErrorCode::FrameSizeError,
                    "PUSH_PROMISE frame too short for promised stream id",
                ),
            );
        }
        assert(unpadded@.skip(0) =~= unpadded@);
        let promised_stream_id = mask_stream_id(read_u32_be(unpadded, 0));
        let fragment = vstd::slice::slice_subrange(unpadded, 4, unpadded.len());
        Ok(
            PushPromiseFrame {
                stream_id: header.stream_id,
                end_headers: header.flags.contains(Flags::end_headers()),
                promised_stream_id,
                header_block_fragment: copy_bytes(fragment),
            },
        )
    }
}

/// Decoding the encoding of a well-formed PUSH_PROMISE frame gives it back.
pub proof fn lemma_push_promise_roundtrip(f: PushPromiseFrameView)
    requires
        push_promise_frame_wf(f),
    ensures
        decode_header_result(push_promise_frame_bytes(f)) == Ok::<FrameHeader, H2Error>(
            push_promise_frame_header(f),
        ),
        decode_push_promise_result(
            push_promise_frame_header(f),
            push_promise_frame_bytes(f).skip(FRAME_HEADER_LEN as int),
        ) == Ok::<PushPromiseFrameView, H2Error>(f),
{
    let h = push_promise_frame_header(f);
    let body = push_promise_frame_body(f);
    lemma_header_roundtrip(h, body);
    lemma_flag_bits(false, f.end_headers, false);
    lemma_flags_view(h.flags, flag_bits(false, f.end_headers, false));
    lemma_u32_be_roundtrip(stream_id_bits(f.promised_stream_id), f.header_block_fragment);
    assert(body.skip(4) =~= f.header_block_fragment);
}

/// A padded PUSH_PROMISE frame decodes to the frame whose promised stream
/// and fragment were padded: the pad-length octet and the padding are
/// dropped, and the promised stream is read right after the pad-length
/// octet (RFC 9113 §6.6).
pub proof fn lemma_push_promise_padded_decode(f: PushPromiseFrameView, pad_len: u8)
    requires
        push_promise_frame_wf(f),
    ensures
        ({
            let payload = padded_bytes(push_promise_frame_body(f), pad_len);
            let header = FrameHeader {
                length: payload.len() as u32,
                frame_type: FrameType::PushPromise,
                flags: flags_of(flag_bits(false, f.end_headers, false) | 0x8),
                stream_id: f.stream_id,
            };
            decode_push_promise_result(header, payload) == Ok::<PushPromiseFrameView, H2Error>(f)
        }),
{
    let body = push_promise_frame_body(f);
    let payload = padded_bytes(body, pad_len);
    let fb = flag_bits(false, f.end_headers, false);
    let bits = fb | 0x8;
    let header = FrameHeader {
        length: payload.len() as u32,
        frame_type: FrameType::PushPromise,
        flags: flags_of(bits),
        stream_id: f.stream_id,
    };
    lemma_flag_bits(false, f.end_headers, false);
    lemma_flags_view(header.flags, bits);
    assert(has_flag(bits, 8) && has_flag(bits, 4) == has_flag(fb, 4)) by (bit_vector)
        requires
            bits == fb | 0x8,
    ;
    assert(payload.len() == 1 + body.len() + pad_len);
    lemma_padding_roundtrip(header, body, pad_len);
    lemma_u32_be_roundtrip(stream_id_bits(f.promised_stream_id), f.header_block_fragment);
    assert(body.skip(4) =~= f.header_block_fragment);
}

} // verus!
