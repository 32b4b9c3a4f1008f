use vstd::prelude::*;

verus! {

/// HTTP/2 error codes as defined in RFC 9113 Section 7.
#[derive(Debug, Clone, Copy, PartialEq, Eq)]
pub enum ErrorCode {
    NoError,
    ProtocolError,
    InternalError,
    FlowControlError,
    SettingsTimeout,
    StreamClosed,
    FrameSizeError,
    RefusedStream,
    Cancel,
    CompressionError,
    ConnectError,
    EnhanceYourCalm,
    InadequateSecurity,
    Http11Required,
    Unknown(u32),
}

/// The code that a 32-bit wire value names; values without a name are kept
/// as `Unknown`.
pub open spec fn error_code_of(v: u32) -> ErrorCode {
    if v == 0x0 {
        ErrorCode::NoError
    } else if v == 0x1 {
        ErrorCode::ProtocolError
    } else if v == 0x2 {
        ErrorCode::InternalError
    } else if v == 0x3 {
        ErrorCode::FlowControlError
    } else if v == 0x4 {
        ErrorCode::SettingsTimeout
    } else if v == 0x5 {
        ErrorCode::StreamClosed
    } else if v == 0x6 {
        ErrorCode::FrameSizeError
    } else if v == 0x7 {
        ErrorCode::RefusedStream
    } else if v == 0x8 {
        ErrorCode::Cancel
    } else if v == 0x9 {
        ErrorCode::CompressionError
    } else if v == 0xa {
        ErrorCode::ConnectError
    } else if v == 0xb {
        ErrorCode::EnhanceYourCalm
    } else if v == 0xc {
        ErrorCode::InadequateSecurity
    } else if v == 0xd {
        ErrorCode::Http11Required
    } else {
        ErrorCode::Unknown(v)
    }
}

/// The 32-bit wire value of an error code.
pub open spec fn error_code_value(c: ErrorCode) -> u32 {
    match c {
        ErrorCode::NoError => 0x0,
        ErrorCode::ProtocolError => 0x1,
        ErrorCode::InternalError => 0x2,
        ErrorCode::FlowControlError => 0x3,
        ErrorCode::SettingsTimeout => 0x4,
        ErrorCode::StreamClosed => 0x5,
        ErrorCode::FrameSizeError => 0x6,
        ErrorCode::RefusedStream => 0x7,
        ErrorCode::Cancel => 0x8,
        ErrorCode::CompressionError => 0x9,
        ErrorCode::ConnectError => 0xa,
        ErrorCode::EnhanceYourCalm => 0xb,
        ErrorCode::InadequateSecurity => 0xc,
        ErrorCode::Http11Required => 0xd,
        ErrorCode::Unknown(v) => v,
    }
}

/// An error code is canonical when decoding its wire value gives it back:
/// every named code is, and `Unknown(v)` is when `v` names no code.
pub open spec fn error_code_canonical(c: ErrorCode) -> bool {
    match c {
        ErrorCode::Unknown(v) => v > 0xd,
        _ => true,
    }
}

impl ErrorCode {
    pub fn from_u32(v: u32) -> (r: Self)
        ensures
            r == error_code_of(v),
    {
        match v {
            0x0 => ErrorCode::NoError,
            0x1 => ErrorCode::ProtocolError,
            0x2 => ErrorCode::InternalError,
            0x3 => ErrorCode::FlowControlError,
            0x4 => ErrorCode::SettingsTimeout,
            0x5 => ErrorCode::StreamClosed,
            0x6 => ErrorCode::FrameSizeError,
            0x7 => ErrorCode::RefusedStream,
            0x8 => ErrorCode::Cancel,
            0x9 => ErrorCode::CompressionError,
            0xa => ErrorCode::ConnectError,
            0xb => ErrorCode::EnhanceYourCalm,
            0xc => ErrorCode::InadequateSecurity,
            0xd => ErrorCode::Http11Required,
            other => ErrorCode::Unknown(other),
        }
    }

    pub fn as_u32(self) -> (r: u32)
        ensures
            r == error_code_value(self),
    {
        match self {
            ErrorCode::NoError => 0x0,
            ErrorCode::ProtocolError => 0x1,
            ErrorCode::InternalError => 0x2,
            ErrorCode::FlowControlError => 0x3,
            ErrorCode::SettingsTimeout => 0x4,
            ErrorCode::StreamClosed => 0x5,
            ErrorCode::FrameSizeError => 0x6,
            ErrorCode::RefusedStream => 0x7,
            ErrorCode::Cancel => 0x8,
            ErrorCode::CompressionError => 0x9,
            ErrorCode::ConnectError => 0xa,
            ErrorCode::EnhanceYourCalm => 0xb,
            ErrorCode::InadequateSecurity => 0xc,
            ErrorCode::Http11Required => 0xd,
            ErrorCode::Unknown(v) => v,
        }
    }
}

/// Reading a wire value as an error code and writing it back gives the same
/// value, for every 32-bit value.
pub proof fn lemma_error_code_value_roundtrip(v: u32)
    ensures
        error_code_value(error_code_of(v)) == v,
{
}

/// Writing a canonical error code and reading it back gives the same code.
pub proof fn lemma_error_code_roundtrip(c: ErrorCode)
    requires
        error_code_canonical(c),
    ensures
        error_code_of(error_code_value(c)) == c,
{
}

/// The wire values of the error codes are those of the table in RFC 9113
/// §7, both ways; any other value is kept as `Unknown`.
pub proof fn lemma_error_code_registry(v: u32)
    ensures
        error_code_value(ErrorCode::NoError) == 0x0,
        error_code_value(ErrorCode::ProtocolError) == 0x1,
        error_code_value(ErrorCode::InternalError) == 0x2,
        error_code_value(ErrorCode::FlowControlError) == 0x3,
        error_code_value(ErrorCode::SettingsTimeout) == 0x4,
        error_code_value(ErrorCode::StreamClosed) == 0x5,
        error_code_value(ErrorCode::FrameSizeError) == 0x6,
        error_code_value(ErrorCode::RefusedStream) == 0x7,
        error_code_value(ErrorCode::Cancel) == 0x8,
        error_code_value(ErrorCode::CompressionError) == 0x9,
        error_code_value(ErrorCode::ConnectError) == 0xa,
        error_code_value(ErrorCode::EnhanceYourCalm) == 0xb,
        error_code_value(ErrorCode::InadequateSecurity) == 0xc,
        error_code_value(ErrorCode::Http11Required) == 0xd,
        error_code_of(0x0) == ErrorCode::NoError,
        error_code_of(0x1) == ErrorCode::ProtocolError,
        error_code_of(0x2) == ErrorCode::InternalError,
        error_code_of(0x3) == ErrorCode::FlowControlError,
        error_code_of(0x4) == ErrorCode::SettingsTimeout,
        error_code_of(0x5) == ErrorCode::StreamClosed,
        error_code_of(0x6) == ErrorCode::FrameSizeError,
        error_code_of(0x7) == ErrorCode::RefusedStream,
        error_code_of(0x8) == ErrorCode::Cancel,
        error_code_of(0x9) == ErrorCode::CompressionError,
        error_code_of(0xa) == ErrorCode::ConnectError,
        error_code_of(0xb) == ErrorCode::EnhanceYourCalm,
        error_code_of(0xc) == ErrorCode::InadequateSecurity,
        error_code_of(0xd) == ErrorCode::Http11Required,
        v > 0xd ==> error_code_of(v) == ErrorCode::Unknown(v) && error_code_value(
            ErrorCode::Unknown(v),
        ) == v,
{
}

/// Errors that can occur while decoding a frame or a header block.
#[derive(Debug, Clone, PartialEq, Eq)]
pub enum H2Error {
    /// Not enough bytes were available to decode a complete frame/value.
    Incomplete,
    /// The frame violates a connection-level invariant (RFC 9113 §5.4.1).
    Connection(ErrorCode, &'static str),
    /// The frame violates a stream-level invariant; only that stream is affected.
    Stream(u32, ErrorCode, &'static str),
}

/// The result of every decoding step of this crate.
pub type Result<T> = core::result::Result<T, H2Error>;

} // verus!
