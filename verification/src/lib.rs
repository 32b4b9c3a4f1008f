//! HTTP/2 wire-format building blocks (RFC 9113 and RFC 7541): the frame
//! codec, HPACK header compression and the per-stream state machine, each
//! with its behaviour stated in contracts and proved with Verus.
pub mod error;
pub mod stream;
pub mod hpack;
pub mod frame;

use vstd::prelude::*;

verus! {

/// The client connection preface (RFC 9113 §3.4): the octets of
/// `PRI * HTTP/2.0\r\n\r\nSM\r\n\r\n`, which a client sends first on every
/// HTTP/2 connection.
pub const CONNECTION_PREFACE: [u8; 24] = [0x50, 0x52, 0x49, 0x20, 0x2a, 0x20, 0x48, 0x54, 0x54, 0x50, 0x2f, 0x32, 0x2e, 0x30, 0x0d, 0x0a, 0x0d, 0x0a, 0x53, 0x4d, 0x0d, 0x0a, 0x0d, 0x0a];

} // verus!
