use crate::error::{ErrorCode, H2Error, Result};
use crate::frame::header::{
    decode_header_result, flag_bits, flags_of, frame_header_bytes, has_flag, lemma_flag_bits,
    lemma_flags_view, lemma_header_roundtrip, lemma_top_bit, Flags, FrameHeader, FrameType, FRAME_HEADER_LEN,
    MAX_MAX_FRAME_SIZE,
};
use crate::frame::padding::{lemma_padding_roundtrip, padded_bytes, strip_padding, strip_padding_result};
use crate::hpack::decoder::copy_bytes;
use crate::hpack::primitive::append_bytes;
use vstd::prelude::*;

verus! {

/// DATA frame (RFC 9113 §6.1).
#[derive(Debug, Clone, PartialEq, Eq)]
pub struct DataFrame {
    pub stream_id: u32,
    pub end_stream: bool,
    pub data: Vec<u8>,
}

/// A DATA frame with its data as an octet string.
pub struct DataFrameView {
    pub stream_id: u32,
    pub end_stream: bool,
    pub data: Seq<u8>,
}

impl View for DataFrame {
    type V = DataFrameView;

    open spec fn view(&self) -> DataFrameView {
        DataFrameView { stream_id: self.stream_id, end_stream: self.end_stream, data: self.data@ }
    }
}

/// The header that `encode` writes for a DATA frame.
pub open spec fn data_frame_header(f: DataFrameView) -> FrameHeader {
    FrameHeader {
        length: f.data.len() as u32,
        frame_type: FrameType::Data,
        flags: flags_of(flag_bits(f.end_stream, false, false)),
        stream_id: f.stream_id,
    }
}

/// The encoding of a DATA frame: its header, then the data, unpadded.
pub open spec fn data_frame_bytes(f: DataFrameView) -> Seq<u8> {
    frame_header_bytes(data_frame_header(f)) + f.data
}

/// What decoding a DATA frame body gives.
pub open spec fn decode_data_result(header: FrameHeader, payload: Seq<u8>) -> Result<DataFrameView> {
    if header.stream_id == 0 {
        Err(
            H2Error::Connection(
                ErrorCode::ProtocolError,
                "DATA frame must be associated with a stream",
            ),
        )
    } else if payload.len() != header.length {
        Err(H2Error::Incomplete)
    } else {
        match strip_padding_result(header, payload) {
            Err(e) => Err(e),
            Ok((body, _)) => Ok(
                DataFrameView {
                    stream_id: header.stream_id,
                    end_stream: has_flag(header.flags@, 1),
                    data: body,
                },
            ),
        }
    }
}

/// A DATA frame that survives encoding: on a stream, with a 31-bit stream
/// identifier and data that fits a frame.
pub open spec fn data_frame_wf(f: DataFrameView) -> bool {
    0 < f.stream_id < 0x80000000 && f.data.len() <= MAX_MAX_FRAME_SIZE
}

impl DataFrame {
    pub fn new(stream_id: u32, data: Vec<u8>, end_stream: bool) -> (f: Self)
        ensures
            f.stream_id == stream_id,
            f.end_stream == end_stream,
            f.data == data,
    {
        DataFrame { stream_id, end_stream, data }
    }

    pub fn encode(&self, out: &mut Vec<u8>)
        requires
            self.data.len() <= MAX_MAX_FRAME_SIZE,
            self.stream_id < 0x80000000,
        ensures
            final(out)@ == old(out)@ + data_frame_bytes(self@),
    {
        let flags = if self.end_stream {
            Flags::end_stream()
        } else {
            Flags::none()
        };
        proof {
            lemma_flag_bits(self.end_stream, false, false);
            lemma_top_bit(self.stream_id);
            crate::frame::header::lemma_flags_view(flags, 0);
        }
        let header = FrameHeader::new(
            self.data.len() as u32,
            FrameType::Data,
            flags,
            self.stream_id,
        );
        header.encode(out);
        append_bytes(out, self.data.as_slice());
        assert(out@ =~= old(out)@ + data_frame_bytes(self@));
    }

    /// Decode a DATA frame body. `header.length` bytes must be present in `payload`.
    pub fn decode(header: &FrameHeader, payload: &[u8]) -> (r: Result<Self>)
        ensures
            match decode_data_result(*header, payload@) {
                Ok(v) => r matches Ok(f) && f@ == v,
                Err(e) => r == Err::<DataFrame, H2Error>(e),
            },
    {
        if header.stream_id == 0 {
            return Err(
                H2Error::Connection(
                    ErrorCode::ProtocolError,
                    "DATA frame must be associated with a stream",
                ),
            );
        }
        if payload.len() != header.length as usize {
            return Err(H2Error::Incomplete);
        }
        let (data, _pad_len) = match strip_padding(header, payload) {
            Ok(x) => x,
            Err(e) => {
                return Err(e);
            },
        };
        Ok(
            DataFrame {
                stream_id: header.stream_id,
                end_stream: header.flags.contains(Flags::end_stream()),
                data: copy_bytes(data),
            },
        )
    }
}

/// Decoding the encoding of a well-formed DATA frame gives it back.
pub proof fn lemma_data_roundtrip(f: DataFrameView)
    requires
        data_frame_wf(f),
    ensures
        decode_header_result(data_frame_bytes(f)) == Ok::<FrameHeader, H2Error>(
            data_frame_header(f),
        ),
        decode_data_result(
            data_frame_header(f),
            data_frame_bytes(f).skip(FRAME_HEADER_LEN as int),
        ) == Ok::<DataFrameView, H2Error>(f),
{
    let h = data_frame_header(f);
    lemma_header_roundtrip(h, f.data);
    lemma_flag_bits(f.end_stream, false, false);
    crate::frame::header::lemma_flags_view(h.flags, flag_bits(f.end_stream, false, false));
}

/// A padded DATA frame decodes to its data alone: the pad-length octet and
/// the padding are dropped (RFC 9113 §6.1).
pub proof fn lemma_data_padded_decode(f: DataFrameView, pad_len: u8)
    requires
        data_frame_wf(f),
    ensures
        ({
            let payload = padded_bytes(f.data, pad_len);
            let header = FrameHeader {
                length: payload.len() as u32,
                frame_type: FrameType::Data,
                flags: flags_of(flag_bits(f.end_stream, false, false) | 0x8),
                stream_id: f.stream_id,
            };
            decode_data_result(header, payload) == Ok::<DataFrameView, H2Error>(f)
        }),
{
    let payload = padded_bytes(f.data, pad_len);
    let fb = flag_bits(f.end_stream, false, false);
    let bits = fb | 0x8;
    let header = FrameHeader {
        length: payload.len() as u32,
        frame_type: FrameType::Data,
        flags: flags_of(bits),
        stream_id: f.stream_id,
    };
    lemma_flag_bits(f.end_stream, false, false);
    lemma_flags_view(header.flags, bits);
    assert(has_flag(bits, 8) && has_flag(bits, 1) == has_flag(fb, 1)) by (bit_vector)
        requires
            bits == fb | 0x8,
    ;
    assert(payload.len() == 1 + f.data.len() + pad_len);
    lemma_padding_roundtrip(header, f.data, pad_len);
}

} // verus!
