use crate::error::{ErrorCode, H2Error, Result};
use crate::frame::header::{has_flag, Flags, FrameHeader};
use crate::hpack::primitive::append_bytes;
use vstd::prelude::*;

verus! {

/// The PADDED flag bit.
pub open spec fn padded_bit() -> u8 {
    0x8
}

/// What stripping the padding of a frame payload gives: the body and the
/// pad length, or the error (RFC 9113 §6.1/§6.2/§6.6).
pub open spec fn strip_padding_result(header: FrameHeader, payload: Seq<u8>) -> Result<(Seq<u8>, u8)> {
    if !has_flag(header.flags@, padded_bit()) {
        Ok((payload, 0u8))
    } else if payload.len() == 0 {
        Err(
            H2Error::Connection(
                ErrorCode::ProtocolError,
                "PADDED flag set but no pad length octet present",
            ),
        )
    } else if payload[0] > payload.len() - 1 {
        Err(H2Error::Connection(ErrorCode::ProtocolError, "padding length exceeds frame payload"))
    } else {
        Ok((payload.subrange(1, payload.len() - payload[0]), payload[0]))
    }
}

/// A padded payload: `[pad_len][body][pad_len zero bytes]`.
pub open spec fn padded_bytes(body: Seq<u8>, pad_len: u8) -> Seq<u8> {
    seq![pad_len] + body + Seq::new(pad_len as nat, |i: int| 0u8)
}

/// Strip the optional pad-length prefix and trailing padding from a frame
/// payload (used by DATA, HEADERS and PUSH_PROMISE; RFC 9113 §6.1/§6.2/§6.6).
///
/// Returns the unpadded body slice and the pad length that was removed.
pub fn strip_padding<'a>(header: &FrameHeader, payload: &'a [u8]) -> (r: Result<(&'a [u8], u8)>)
    ensures
        match strip_padding_result(*header, payload@) {
            Ok((body, pad)) => r matches Ok((s, p)) && s@ == body && p == pad,
            Err(e) => r == Err::<(&[u8], u8), H2Error>(e),
        },
{
    if !header.flags.contains(Flags::padded()) {
        return Ok((payload, 0));
    }
    if payload.len() == 0 {
        return Err(
            H2Error::Connection(
                ErrorCode::ProtocolError,
                "PADDED flag set but no pad length octet present",
            ),
        );
    }
    let pad_len = payload[0] as usize;
    let body = vstd::slice::slice_subrange(payload, 1, payload.len());
    if pad_len > body.len() {
        return Err(
            H2Error::Connection(ErrorCode::ProtocolError, "padding length exceeds frame payload"),
        );
    }
    let unpadded = vstd::slice::slice_subrange(body, 0, body.len() - pad_len);
    assert(unpadded@ =~= payload@.subrange(1, payload@.len() - payload@[0]));
    Ok((unpadded, pad_len as u8))
}

/// Build a padded payload: `[pad_len][body][pad_len zero bytes]`.
pub fn add_padding(out: &mut Vec<u8>, body: &[u8], pad_len: u8)
    ensures
        final(out)@ == old(out)@ + padded_bytes(body@, pad_len),
{
    out.push(pad_len);
    append_bytes(out, body);
    let ghost start = out@;
    let mut i: u8 = 0;
    while i < pad_len
        invariant
            i <= pad_len,
            out@ == start + Seq::new(i as nat, |k: int| 0u8),
        decreases pad_len - i,
    {
        out.push(0u8);
        i = i + 1;
        assert(out@ =~= start + Seq::new(i as nat, |k: int| 0u8));
    }
    assert(out@ =~= old(out)@ + padded_bytes(body@, pad_len));
}

/// Stripping the padding that `add_padding` added gives the body and the
/// pad length back, for a frame whose PADDED flag is set.
pub proof fn lemma_padding_roundtrip(header: FrameHeader, body: Seq<u8>, pad_len: u8)
    requires
        has_flag(header.flags@, padded_bit()),
    ensures
        strip_padding_result(header, padded_bytes(body, pad_len)) == Ok::<(Seq<u8>, u8), H2Error>(
            (body, pad_len),
        ),
{
    let p = padded_bytes(body, pad_len);
    assert(p[0] == pad_len);
    assert(p.subrange(1, p.len() - pad_len) =~= body);
}

} // verus!
