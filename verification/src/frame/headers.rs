use crate::error::{ErrorCode, H2Error, Result};
use crate::frame::header::{
    decode_header_result, flag_bits, flags_of, frame_header_bytes, has_flag, lemma_flag_bits,
    lemma_flags_view, lemma_header_roundtrip, lemma_top_bit, lemma_u32_be_roundtrip,
    mask_stream_id, push_u32_be, read_u32_be, stream_id_bits, u32_be_bytes, u32_from_be, Flags,
    FrameHeader, FrameType, FRAME_HEADER_LEN, MAX_MAX_FRAME_SIZE,
};
use crate::frame::padding::{lemma_padding_roundtrip, padded_bytes, strip_padding, strip_padding_result};
use crate::hpack::decoder::copy_bytes;
use crate::hpack::primitive::append_bytes;
use vstd::prelude::*;

verus! {

/// Stream dependency + weight, present when the PRIORITY flag is set on a
/// HEADERS frame, or always on a PRIORITY frame (RFC 9113 §5.3.1).
#[derive(Debug, Clone, Copy, PartialEq, Eq)]
pub struct Priority {
    pub exclusive: bool,
    /// 31-bit stream id
    pub dependency: u32,
    /// encoded as weight-1 on the wire; this is the real 1-256 weight
    pub weight: u8,
}

/// The 32-bit word that carries the exclusive bit and the dependency.
pub open spec fn priority_word(p: Priority) -> u32 {
    (stream_id_bits(p.dependency) + if p.exclusive {
        0x80000000u32
    } else {
        0u32
    }) as u32
}

/// The five octets of a stream priority: the word, then the weight minus
/// one, wrapping.
pub open spec fn priority_bytes(p: Priority) -> Seq<u8> {
    u32_be_bytes(priority_word(p)) + seq![((p.weight + 255) % 256) as u8]
}

/// What decoding a stream priority from the front of `buf` gives.
pub open spec fn decode_priority_result(buf: Seq<u8>) -> Result<Priority> {
    if buf.len() < 5 {
        Err(H2Error::Incomplete)
    } else {
        Ok(
            Priority {
                exclusive: u32_from_be(buf) >= 0x80000000,
                dependency: stream_id_bits(u32_from_be(buf)),
                weight: ((buf[4] + 1) % 256) as u8,
            },
        )
    }
}

/// Decoding the encoding of a priority gives it back, whatever follows,
/// when its dependency is a 31-bit stream identifier.
pub proof fn lemma_priority_roundtrip(p: Priority, rest: Seq<u8>)
    requires
        p.dependency < 0x80000000,
    ensures
        decode_priority_result(priority_bytes(p) + rest) == Ok::<Priority, H2Error>(p),
        priority_bytes(p).len() == 5,
{
    let w = priority_word(p);
    let b = priority_bytes(p) + rest;
    lemma_u32_be_roundtrip(w, seq![((p.weight + 255) % 256) as u8] + rest);
    assert(b =~= u32_be_bytes(w) + (seq![((p.weight + 255) % 256) as u8] + rest));
    assert(b[4] == ((p.weight + 255) % 256) as u8);
}

impl Priority {
    pub fn decode(buf: &[u8]) -> (r: Result<Self>)
        ensures
            r == decode_priority_result(buf@),
    {
        if buf.len() < 5 {
            return Err(H2Error::Incomplete);
        }
        let raw = read_u32_be(buf, 0);
        assert(buf@.skip(0) =~= buf@);
        assert((raw & 0x8000_0000 != 0) == (raw >= 0x80000000)) by (bit_vector);
        Ok(
            Priority {
                exclusive: raw & 0x8000_0000 != 0,
                dependency: mask_stream_id(raw),
                weight: buf[4].wrapping_add(1),
            },
        )
    }

    pub fn encode(&self, out: &mut Vec<u8>)
        ensures
            final(out)@ == old(out)@ + priority_bytes(*self),
    {
        let mut raw = mask_stream_id(self.dependency);
        if self.exclusive {
            assert(raw < 0x80000000 ==> raw | 0x8000_0000 == raw + 0x80000000) by (bit_vector);
            raw = raw | 0x8000_0000;
        }
        push_u32_be(out, raw);
        out.push(self.weight.wrapping_sub(1));
        assert(out@ =~= old(out)@ + priority_bytes(*self));
    }
}

/// HEADERS frame (RFC 9113 §6.2). `header_block_fragment` is the raw,
/// still-HPACK-encoded byte string; combine with any CONTINUATION frames
/// before running it through the HPACK decoder.
#[derive(Debug, Clone, PartialEq, Eq)]
pub struct HeadersFrame {
    pub stream_id: u32,
    pub end_stream: bool,
    pub end_headers: bool,
    pub priority: Option<Priority>,
    pub header_block_fragment: Vec<u8>,
}

/// A HEADERS frame with its fragment as an octet string.
pub struct HeadersFrameView {
    pub stream_id: u32,
    pub end_stream: bool,
    pub end_headers: bool,
    pub priority: Option<Priority>,
    pub header_block_fragment: Seq<u8>,
}

impl View for HeadersFrame {
    type V = HeadersFrameView;

    open spec fn view(&self) -> HeadersFrameView {
        HeadersFrameView {
            stream_id: self.stream_id,
            end_stream: self.end_stream,
            end_headers: self.end_headers,
            priority: self.priority,
            header_block_fragment: self.header_block_fragment@,
        }
    }
}

/// The payload that `encode` writes for a HEADERS frame: the priority, if
/// any, then the fragment, unpadded.
pub open spec fn headers_frame_body(f: HeadersFrameView) -> Seq<u8> {
    match f.priority {
        Some(p) => priority_bytes(p) + f.header_block_fragment,
        None => f.header_block_fragment,
    }
}

/// The header that `encode` writes for a HEADERS frame.
pub open spec fn headers_frame_header(f: HeadersFrameView) -> FrameHeader {
    FrameHeader {
        length: headers_frame_body(f).len() as u32,
        frame_type: FrameType::Headers,
        flags: flags_of(flag_bits(f.end_stream, f.end_headers, f.priority is Some)),
        stream_id: f.stream_id,
    }
}

/// The encoding of a HEADERS frame.
pub open spec fn headers_frame_bytes(f: HeadersFrameView) -> Seq<u8> {
    frame_header_bytes(headers_frame_header(f)) + headers_frame_body(f)
}

/// What decoding a HEADERS frame body gives.
pub open spec fn decode_headers_result(header: FrameHeader, payload: Seq<u8>) -> Result<
    HeadersFrameView,
> {
    if header.stream_id == 0 {
        Err(
            H2Error::Connection(
                ErrorCode::ProtocolError,
                "HEADERS frame must be associated with a stream",
            ),
        )
    } else if payload.len() != header.length {
        Err(H2Error::Incomplete)
    } else {
        match strip_padding_result(header, payload) {
            Err(e) => Err(e),
            Ok((unpadded, _)) => {
                let prioritized: Result<(Option<Priority>, Seq<u8>)> = if has_flag(
                    header.flags@,
                    0x20,
                ) {
                    match decode_priority_result(unpadded) {
                        Ok(p) => Ok((Some(p), unpadded.skip(5))),
                        Err(e) => Err(e),
                    }
                } else {
                    Ok((None, unpadded))
                };
                match prioritized {
                    Err(e) => Err(e),
                    Ok((priority, rest)) => Ok(
                        HeadersFrameView {
                            stream_id: header.stream_id,
                            end_stream: has_flag(header.flags@, 1),
                            end_headers: has_flag(header.flags@, 4),
                            priority,
                            header_block_fragment: rest,
                        },
                    ),
                }
            },
        }
    }
}

/// A HEADERS frame that survives encoding: on a stream, with 31-bit
/// identifiers and a payload that fits a frame.
pub open spec fn headers_frame_wf(f: HeadersFrameView) -> bool {
    &&& 0 < f.stream_id < 0x80000000
    &&& headers_frame_body(f).len() <= MAX_MAX_FRAME_SIZE
    &&& f.priority matches Some(p) ==> p.dependency < 0x80000000
}

impl HeadersFrame {
    pub fn encode(&self, out: &mut Vec<u8>)
        requires
            headers_frame_body(self@).len() <= MAX_MAX_FRAME_SIZE,
            self.stream_id < 0x80000000,
        ensures
            final(out)@ == old(out)@ + headers_frame_bytes(self@),
    {
        let end_stream = if self.end_stream {
            Flags::end_stream()
        } else {
            Flags::none()
        };
        let end_headers = if self.end_headers {
            Flags::end_headers()
        } else {
            Flags::none()
        };
        let priority = if self.priority.is_some() {
            Flags::priority()
        } else {
            Flags::none()
        };
        let flags = end_stream | end_headers | priority;
        proof {
            lemma_flag_bits(self.end_stream, self.end_headers, self.priority is Some);
            lemma_flags_view(flags, 0);
            lemma_top_bit(self.stream_id);
        }
        let mut body: Vec<u8> = Vec::new();
        if let Some(p) = &self.priority {
            p.encode(&mut body);
        }
        append_bytes(&mut body, self.header_block_fragment.as_slice());
        assert(body@ =~= headers_frame_body(self@));
        let header = FrameHeader::new(body.len() as u32, FrameType::Headers, flags, self.stream_id);
        header.encode(out);
        append_bytes(out, body.as_slice());
        assert(out@ =~= old(out)@ + headers_frame_bytes(self@));
    }

    pub fn decode(header: &FrameHeader, payload: &[u8]) -> (r: Result<Self>)
        ensures
            match decode_headers_result(*header, payload@) {
                Ok(v) => r matches Ok(f) && f@ == v,
                Err(e) => r == Err::<HeadersFrame, H2Error>(e),
            },
    {
        if header.stream_id == 0 {
            return Err(
                H2Error::Connection(
                    ErrorCode::ProtocolError,
                    "HEADERS frame must be associated with a stream",
                ),
            );
        }
        if payload.len() != header.length as usize {
            return Err(H2Error::Incomplete);
        }
        let (unpadded, _pad_len) = match strip_padding(header, payload) {
            Ok(x) => x,
            Err(e) => {
                return Err(e);
            },
        };
        let mut rest = unpadded;
        let priority = if header.flags.contains(Flags::priority()) {
            let p = match Priority::decode(rest) {
                Ok(p) => p,
                Err(e) => {
                    return Err(e);
                },
            };
            rest = vstd::slice::slice_subrange(rest, 5, rest.len());
            Some(p)
        } else {
            None
        };
        Ok(
            HeadersFrame {
                stream_id: header.stream_id,
                end_stream: header.flags.contains(Flags::end_stream()),
                end_headers: header.flags.contains(Flags::end_headers()),
                priority,
                header_block_fragment: copy_bytes(rest),
            },
        )
    }
}

/// Decoding the encoding of a well-formed HEADERS frame gives it back.
pub proof fn lemma_headers_roundtrip(f: HeadersFrameView)
    requires
        headers_frame_wf(f),
    ensures
        decode_header_result(headers_frame_bytes(f)) == Ok::<FrameHeader, H2Error>(
            headers_frame_header(f),
        ),
        decode_headers_result(
            headers_frame_header(f),
            headers_frame_bytes(f).skip(FRAME_HEADER_LEN as int),
        ) == Ok::<HeadersFrameView, H2Error>(f),
{
    let h = headers_frame_header(f);
    let body = headers_frame_body(f);
    lemma_header_roundtrip(h, body);
    lemma_flag_bits(f.end_stream, f.end_headers, f.priority is Some);
    lemma_flags_view(h.flags, flag_bits(f.end_stream, f.end_headers, f.priority is Some));
    if let Some(p) = f.priority {
        lemma_priority_roundtrip(p, f.header_block_fragment);
        assert(body.skip(5) =~= f.header_block_fragment);
    }
}

/// A padded HEADERS frame decodes to the frame whose priority and fragment
/// were padded: the pad-length octet and the padding are dropped, and the
/// priority is read from right after the pad-length octet (RFC 9113 §6.2).
pub proof fn lemma_headers_padded_decode(f: HeadersFrameView, pad_len: u8)
    requires
        headers_frame_wf(f),
    ensures
        ({
            let payload = padded_bytes(headers_frame_body(f), pad_len);
            let header = FrameHeader {
                length: payload.len() as u32,
                frame_type: FrameType::Headers,
                flags: flags_of(flag_bits(f.end_stream, f.end_headers, f.priority is Some) | 0x8),
                stream_id: f.stream_id,
            };
            decode_headers_result(header, payload) == Ok::<HeadersFrameView, H2Error>(f)
        }),
{
    let body = headers_frame_body(f);
    let payload = padded_bytes(body, pad_len);
    let fb = flag_bits(f.end_stream, f.end_headers, f.priority is Some);
    let bits = fb | 0x8;
    let header = FrameHeader {
        length: payload.len() as u32,
        frame_type: FrameType::Headers,
        flags: flags_of(bits),
        stream_id: f.stream_id,
    };
    lemma_flag_bits(f.end_stream, f.end_headers, f.priority is Some);
    lemma_flags_view(header.flags, bits);
    assert(has_flag(bits, 8) && has_flag(bits, 1) == has_flag(fb, 1) && has_flag(bits, 4)
        == has_flag(fb, 4) && has_flag(bits, 0x20) == has_flag(fb, 0x20)) by (bit_vector)
        requires
            bits == fb | 0x8,
    ;
    assert(payload.len() == 1 + body.len() + pad_len);
    lemma_padding_roundtrip(header, body, pad_len);
    if let Some(p) = f.priority {
        lemma_priority_roundtrip(p, f.header_block_fragment);
        assert(body.skip(5) =~= f.header_block_fragment);
    }
}

} // verus!
