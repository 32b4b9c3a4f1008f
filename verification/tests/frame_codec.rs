use rusty_h2::error::{ErrorCode, H2Error};
use rusty_h2::frame::continuation::ContinuationFrame;
use rusty_h2::frame::data::DataFrame;
use rusty_h2::frame::goaway::GoAwayFrame;
use rusty_h2::frame::header::{check_frame_size, Flags, FrameHeader, FrameType, FRAME_HEADER_LEN};
use rusty_h2::frame::headers::{HeadersFrame, Priority};
use rusty_h2::frame::padding::{add_padding, strip_padding};
use rusty_h2::frame::ping::PingFrame;
use rusty_h2::frame::priority::PriorityFrame;
use rusty_h2::frame::push_promise::PushPromiseFrame;
use rusty_h2::frame::rst_stream::RstStreamFrame;
use rusty_h2::frame::settings::{Setting, SettingId, SettingsFrame};
use rusty_h2::frame::window_update::WindowUpdateFrame;
use rusty_h2::frame::Frame;
use rusty_h2::CONNECTION_PREFACE;

// ---- frame header ----

#[test]
fn header_roundtrip() {
    let h = FrameHeader::new(42, FrameType::Headers, Flags::end_headers() | Flags::end_stream(), 7);
    let mut buf = Vec::new();
    h.encode(&mut buf);
    assert_eq!(buf.len(), FRAME_HEADER_LEN);
    let decoded = FrameHeader::decode(&buf).unwrap();
    assert_eq!(h, decoded);
}

#[test]
fn reserved_bit_ignored_on_decode() {
    let mut buf = vec![0, 0, 0, 0x0, 0, 0x80, 0, 0, 1];
    let decoded = FrameHeader::decode(&buf).unwrap();
    assert_eq!(decoded.stream_id, 0x0000_0001);
    buf[5] = 0xff;
    let decoded = FrameHeader::decode(&buf).unwrap();
    assert_eq!(decoded.stream_id, 0x7f00_0001);
}

#[test]
fn incomplete_header() {
    let buf = [0u8; 5];
    assert_eq!(FrameHeader::decode(&buf), Err(H2Error::Incomplete));
}

#[test]
fn header_encoding_exact_bytes() {
    let h = FrameHeader::new(0x012345, FrameType::Settings, Flags::ack(), 0x0102_0304);
    let mut buf = Vec::new();
    h.encode(&mut buf);
    assert_eq!(buf, vec![0x01, 0x23, 0x45, 0x04, 0x01, 0x01, 0x02, 0x03, 0x04]);
}

#[test]
fn frame_type_codes_roundtrip() {
    for v in 0..=255u8 {
        assert_eq!(FrameType::from_u8(v).as_u8(), v);
    }
    assert_eq!(FrameType::from_u8(0x9), FrameType::Continuation);
    assert_eq!(FrameType::from_u8(0xa), FrameType::Unknown(0xa));
}

#[test]
fn flags_union_and_contains() {
    let f = Flags::end_headers() | Flags::padded();
    assert_eq!(f.bits(), 0x4 | 0x8);
    assert!(f.contains(Flags::padded()));
    assert!(!f.contains(Flags::priority()));
    assert_eq!(Flags::from_bits_truncate(0x29).bits(), 0x29);
}

#[test]
fn frame_size_check() {
    assert_eq!(check_frame_size(16384, 16384), Ok(()));
    assert_eq!(
        check_frame_size(16385, 16384),
        Err(H2Error::Connection(
            ErrorCode::FrameSizeError,
            "frame length exceeds SETTINGS_MAX_FRAME_SIZE"
        ))
    );
}

#[test]
fn connection_preface_octets() {
    assert_eq!(&CONNECTION_PREFACE[..], b"PRI * HTTP/2.0\r\n\r\nSM\r\n\r\n");
}

// ---- padding ----

#[test]
fn no_padding_flag_returns_whole_payload() {
    let header = FrameHeader::new(3, FrameType::Data, Flags::none(), 1);
    let (body, pad) = strip_padding(&header, b"abc").unwrap();
    assert_eq!(body, b"abc");
    assert_eq!(pad, 0);
}

#[test]
fn padded_roundtrip() {
    let mut buf = Vec::new();
    add_padding(&mut buf, b"abc", 4);
    let header = FrameHeader::new(buf.len() as u32, FrameType::Data, Flags::padded(), 1);
    let (body, pad) = strip_padding(&header, &buf).unwrap();
    assert_eq!(body, b"abc");
    assert_eq!(pad, 4);
}

#[test]
fn pad_length_too_large_errors() {
    let payload = [5u8, b'a', b'b'];
    let header = FrameHeader::new(payload.len() as u32, FrameType::Data, Flags::padded(), 1);
    assert!(strip_padding(&header, &payload).is_err());
}

#[test]
fn padding_layout_and_errors() {
    let mut buf = vec![9u8];
    add_padding(&mut buf, b"xy", 2);
    assert_eq!(buf, vec![9, 2, b'x', b'y', 0, 0]);
    let header = FrameHeader::new(0, FrameType::Data, Flags::padded(), 1);
    assert_eq!(
        strip_padding(&header, &[]),
        Err(H2Error::Connection(
            ErrorCode::ProtocolError,
            "PADDED flag set but no pad length octet present"
        ))
    );
    let header = FrameHeader::new(3, FrameType::Data, Flags::padded(), 1);
    assert_eq!(
        strip_padding(&header, &[5, b'a', b'b']),
        Err(H2Error::Connection(ErrorCode::ProtocolError, "padding length exceeds frame payload"))
    );
}

// ---- DATA ----

#[test]
fn data_roundtrip() {
    let f = DataFrame::new(3, b"hello".to_vec(), true);
    let mut buf = Vec::new();
    f.encode(&mut buf);
    let header = FrameHeader::decode(&buf).unwrap();
    let decoded = DataFrame::decode(&header, &buf[9..]).unwrap();
    assert_eq!(decoded, f);
}

#[test]
fn stream_zero_is_protocol_error() {
    let header = FrameHeader::new(0, FrameType::Data, Flags::none(), 0);
    assert!(DataFrame::decode(&header, &[]).is_err());
}

#[test]
fn data_errors_exact() {
    let header = FrameHeader::new(0, FrameType::Data, Flags::none(), 0);
    assert_eq!(
        DataFrame::decode(&header, &[]),
        Err(H2Error::Connection(
            ErrorCode::ProtocolError,
            "DATA frame must be associated with a stream"
        ))
    );
    let header = FrameHeader::new(4, FrameType::Data, Flags::none(), 1);
    assert_eq!(DataFrame::decode(&header, &[1, 2]), Err(H2Error::Incomplete));
}

#[test]
fn data_padded_payload_is_stripped() {
    let mut payload = Vec::new();
    add_padding(&mut payload, b"hi", 3);
    let header = FrameHeader::new(
        payload.len() as u32,
        FrameType::Data,
        Flags::padded() | Flags::end_stream(),
        5,
    );
    let f = DataFrame::decode(&header, &payload).unwrap();
    assert_eq!(f, DataFrame::new(5, b"hi".to_vec(), true));
}

// ---- HEADERS ----

#[test]
fn roundtrip_without_priority() {
    let f = HeadersFrame {
        stream_id: 1,
        end_stream: true,
        end_headers: true,
        priority: None,
        header_block_fragment: vec![1, 2, 3],
    };
    let mut buf = Vec::new();
    f.encode(&mut buf);
    let header = FrameHeader::decode(&buf).unwrap();
    let decoded = HeadersFrame::decode(&header, &buf[9..]).unwrap();
    assert_eq!(decoded, f);
}

#[test]
fn roundtrip_with_priority() {
    let f = HeadersFrame {
        stream_id: 3,
        end_stream: false,
        end_headers: true,
        priority: Some(Priority { exclusive: true, dependency: 1, weight: 200 }),
        header_block_fragment: vec![9, 9, 9],
    };
    let mut buf = Vec::new();
    f.encode(&mut buf);
    let header = FrameHeader::decode(&buf).unwrap();
    let decoded = HeadersFrame::decode(&header, &buf[9..]).unwrap();
    assert_eq!(decoded, f);
}

#[test]
fn headers_priority_exact_bytes() {
    let f = HeadersFrame {
        stream_id: 3,
        end_stream: false,
        end_headers: true,
        priority: Some(Priority { exclusive: true, dependency: 1, weight: 200 }),
        header_block_fragment: vec![7],
    };
    let mut buf = Vec::new();
    f.encode(&mut buf);
    assert_eq!(buf, vec![0, 0, 6, 0x1, 0x4 | 0x20, 0, 0, 0, 3, 0x80, 0, 0, 1, 199, 7]);
}

// ---- PRIORITY ----

#[test]
fn priority_roundtrip() {
    let f = PriorityFrame {
        stream_id: 5,
        priority: Priority { exclusive: false, dependency: 3, weight: 16 },
    };
    let mut buf = Vec::new();
    f.encode(&mut buf);
    let header = FrameHeader::decode(&buf).unwrap();
    let decoded = PriorityFrame::decode(&header, &buf[9..]).unwrap();
    assert_eq!(decoded, f);
}

#[test]
fn wrong_size_is_stream_error() {
    let header = FrameHeader::new(4, FrameType::Priority, Flags::none(), 1);
    assert!(PriorityFrame::decode(&header, &[0; 4]).is_err());
}

#[test]
fn priority_wrong_size_error_exact() {
    let header = FrameHeader::new(4, FrameType::Priority, Flags::none(), 1);
    assert_eq!(
        PriorityFrame::decode(&header, &[0; 4]),
        Err(H2Error::Stream(1, ErrorCode::FrameSizeError, "PRIORITY frame must be exactly 5 octets"))
    );
}

// ---- RST_STREAM ----

#[test]
fn rst_stream_roundtrip() {
    let f = RstStreamFrame { stream_id: 9, error_code: ErrorCode::Cancel };
    let mut buf = Vec::new();
    f.encode(&mut buf);
    let header = FrameHeader::decode(&buf).unwrap();
    let decoded = RstStreamFrame::decode(&header, &buf[9..]).unwrap();
    assert_eq!(decoded, f);
}

#[test]
fn error_code_values() {
    assert_eq!(ErrorCode::Cancel.as_u32(), 0x8);
    assert_eq!(ErrorCode::from_u32(0xb), ErrorCode::EnhanceYourCalm);
    for v in 0..0x20u32 {
        assert_eq!(ErrorCode::from_u32(v).as_u32(), v);
    }
    assert_eq!(ErrorCode::from_u32(0xdead).as_u32(), 0xdead);
}

// ---- SETTINGS ----

#[test]
fn settings_roundtrip() {
    let f = SettingsFrame::new(vec![
        Setting { id: SettingId::HeaderTableSize, value: 4096 },
        Setting { id: SettingId::MaxConcurrentStreams, value: 100 },
    ]);
    let mut buf = Vec::new();
    f.encode(&mut buf);
    let header = FrameHeader::decode(&buf).unwrap();
    let decoded = SettingsFrame::decode(&header, &buf[9..]).unwrap();
    assert_eq!(decoded, f);
}

#[test]
fn ack_roundtrip() {
    let f = SettingsFrame::ack();
    let mut buf = Vec::new();
    f.encode(&mut buf);
    let header = FrameHeader::decode(&buf).unwrap();
    let decoded = SettingsFrame::decode(&header, &buf[9..]).unwrap();
    assert_eq!(decoded, f);
}

#[test]
fn invalid_enable_push_rejected() {
    let payload = [0u8, 2, 0, 0, 0, 2];
    let header = FrameHeader::new(6, FrameType::Settings, Flags::none(), 0);
    assert!(SettingsFrame::decode(&header, &payload).is_err());
}

#[test]
fn non_multiple_of_six_rejected() {
    let header = FrameHeader::new(5, FrameType::Settings, Flags::none(), 0);
    assert!(SettingsFrame::decode(&header, &[0; 5]).is_err());
}

#[test]
fn settings_errors_exact() {
    let header = FrameHeader::new(6, FrameType::Settings, Flags::none(), 0);
    assert_eq!(
        SettingsFrame::decode(&header, &[0, 4, 0x80, 0, 0, 0]),
        Err(H2Error::Connection(
            ErrorCode::FlowControlError,
            "SETTINGS_INITIAL_WINDOW_SIZE exceeds maximum flow-control window"
        ))
    );
    assert_eq!(
        SettingsFrame::decode(&header, &[0, 5, 0, 0, 0x3f, 0xff]),
        Err(H2Error::Connection(
            ErrorCode::ProtocolError,
            "SETTINGS_MAX_FRAME_SIZE out of allowed range"
        ))
    );
    let h1 = FrameHeader::new(0, FrameType::Settings, Flags::none(), 1);
    assert_eq!(
        SettingsFrame::decode(&h1, &[]),
        Err(H2Error::Connection(ErrorCode::ProtocolError, "SETTINGS frame must be on stream 0"))
    );
    let hack = FrameHeader::new(6, FrameType::Settings, Flags::ack(), 0);
    assert_eq!(
        SettingsFrame::decode(&hack, &[0; 6]),
        Err(H2Error::Connection(ErrorCode::FrameSizeError, "SETTINGS ACK must be empty"))
    );
    let h5 = FrameHeader::new(5, FrameType::Settings, Flags::none(), 0);
    assert_eq!(
        SettingsFrame::decode(&h5, &[0; 5]),
        Err(H2Error::Connection(
            ErrorCode::FrameSizeError,
            "SETTINGS frame length must be a multiple of 6"
        ))
    );
}

#[test]
fn settings_unknown_id_kept() {
    let header = FrameHeader::new(6, FrameType::Settings, Flags::none(), 0);
    let f = SettingsFrame::decode(&header, &[0, 0x99, 0, 0, 0, 7]).unwrap();
    assert_eq!(f.settings, vec![Setting { id: SettingId::Unknown(0x99), value: 7 }]);
    assert_eq!(SettingId::from_u16(0x4).as_u16(), 0x4);
    assert_eq!(SettingId::from_u16(0x6), SettingId::MaxHeaderListSize);
}

// ---- PUSH_PROMISE ----

#[test]
fn push_promise_roundtrip() {
    let f = PushPromiseFrame {
        stream_id: 1,
        end_headers: true,
        promised_stream_id: 2,
        header_block_fragment: vec![1, 2, 3, 4],
    };
    let mut buf = Vec::new();
    f.encode(&mut buf);
    let header = FrameHeader::decode(&buf).unwrap();
    let decoded = PushPromiseFrame::decode(&header, &buf[9..]).unwrap();
    assert_eq!(decoded, f);
}

// ---- PING ----

#[test]
fn ping_roundtrip() {
    let f = PingFrame { ack: false, opaque_data: [1, 2, 3, 4, 5, 6, 7, 8] };
    let mut buf = Vec::new();
    f.encode(&mut buf);
    let header = FrameHeader::decode(&buf).unwrap();
    let decoded = PingFrame::decode(&header, &buf[9..]).unwrap();
    assert_eq!(decoded, f);
}

#[test]
fn wrong_length_rejected() {
    let header = FrameHeader::new(4, FrameType::Ping, Flags::none(), 0);
    assert!(PingFrame::decode(&header, &[0; 4]).is_err());
}

#[test]
fn ping_errors_exact() {
    let header = FrameHeader::new(4, FrameType::Ping, Flags::none(), 0);
    assert_eq!(
        PingFrame::decode(&header, &[0; 4]),
        Err(H2Error::Connection(ErrorCode::FrameSizeError, "PING frame must be exactly 8 octets"))
    );
    let header = FrameHeader::new(8, FrameType::Ping, Flags::none(), 3);
    assert_eq!(
        PingFrame::decode(&header, &[0; 8]),
        Err(H2Error::Connection(ErrorCode::ProtocolError, "PING frame must be on stream 0"))
    );
}

// ---- GOAWAY ----

#[test]
fn goaway_roundtrip() {
    let f = GoAwayFrame {
        last_stream_id: 17,
        error_code: ErrorCode::EnhanceYourCalm,
        debug_data: b"slow down".to_vec(),
    };
    let mut buf = Vec::new();
    f.encode(&mut buf);
    let header = FrameHeader::decode(&buf).unwrap();
    let decoded = GoAwayFrame::decode(&header, &buf[9..]).unwrap();
    assert_eq!(decoded, f);
}

#[test]
fn goaway_errors_exact() {
    let header = FrameHeader::new(4, FrameType::GoAway, Flags::none(), 0);
    assert_eq!(
        GoAwayFrame::decode(&header, &[0; 4]),
        Err(H2Error::Connection(ErrorCode::FrameSizeError, "GOAWAY frame too short"))
    );
    let header = FrameHeader::new(8, FrameType::GoAway, Flags::none(), 1);
    assert_eq!(
        GoAwayFrame::decode(&header, &[0; 8]),
        Err(H2Error::Connection(ErrorCode::ProtocolError, "GOAWAY frame must be on stream 0"))
    );
}

// ---- WINDOW_UPDATE ----

#[test]
fn window_update_roundtrip() {
    let f = WindowUpdateFrame { stream_id: 0, window_size_increment: 65535 };
    let mut buf = Vec::new();
    f.encode(&mut buf);
    let header = FrameHeader::decode(&buf).unwrap();
    let decoded = WindowUpdateFrame::decode(&header, &buf[9..]).unwrap();
    assert_eq!(decoded, f);
}

#[test]
fn zero_increment_rejected() {
    let header = FrameHeader::new(4, FrameType::WindowUpdate, Flags::none(), 1);
    assert!(WindowUpdateFrame::decode(&header, &[0, 0, 0, 0]).is_err());
}

#[test]
fn window_update_zero_increment_errors_exact() {
    let header = FrameHeader::new(4, FrameType::WindowUpdate, Flags::none(), 1);
    assert_eq!(
        WindowUpdateFrame::decode(&header, &[0x80, 0, 0, 0]),
        Err(H2Error::Stream(1, ErrorCode::ProtocolError, "WINDOW_UPDATE increment must not be 0"))
    );
    let header = FrameHeader::new(4, FrameType::WindowUpdate, Flags::none(), 0);
    assert_eq!(
        WindowUpdateFrame::decode(&header, &[0, 0, 0, 0]),
        Err(H2Error::Connection(ErrorCode::ProtocolError, "WINDOW_UPDATE increment must not be 0"))
    );
}

// ---- CONTINUATION ----

#[test]
fn continuation_roundtrip() {
    let f = ContinuationFrame { stream_id: 1, end_headers: true, header_block_fragment: vec![1, 2, 3] };
    let mut buf = Vec::new();
    f.encode(&mut buf);
    let header = FrameHeader::decode(&buf).unwrap();
    let decoded = ContinuationFrame::decode(&header, &buf[9..]).unwrap();
    assert_eq!(decoded, f);
}

// ---- Frame ----

#[test]
fn generic_roundtrip_through_frame_enum() {
    let frame = Frame::Ping(PingFrame { ack: false, opaque_data: [0, 1, 2, 3, 4, 5, 6, 7] });
    let mut buf = Vec::new();
    frame.encode(&mut buf);

    let header = FrameHeader::decode(&buf).unwrap();
    let decoded = Frame::decode(&header, &buf[FRAME_HEADER_LEN..]).unwrap();
    assert_eq!(decoded, frame);
}

#[test]
fn unknown_frame_type_preserved() {
    let mut buf = Vec::new();
    let h = FrameHeader::new(3, FrameType::Unknown(0xff), Flags::none(), 1);
    h.encode(&mut buf);
    buf.extend_from_slice(b"abc");

    let header = FrameHeader::decode(&buf).unwrap();
    let decoded = Frame::decode(&header, &buf[FRAME_HEADER_LEN..]).unwrap();
    assert_eq!(decoded, Frame::Unknown {
            frame_type: 0xff,
            flags: Flags::none(),
            stream_id: 1,
            payload: b"abc".to_vec(),
        });

    let mut re_encoded = Vec::new();
    decoded.encode(&mut re_encoded);
    assert_eq!(re_encoded, buf);
}

#[test]
fn every_frame_kind_roundtrips_through_frame_enum() {
    let frames = vec![
        Frame::Data(DataFrame::new(1, vec![1, 2], false)),
        Frame::Headers(HeadersFrame {
            stream_id: 3,
            end_stream: true,
            end_headers: false,
            priority: None,
            header_block_fragment: vec![0x82],
        }),
        Frame::Priority(PriorityFrame {
            stream_id: 3,
            priority: Priority { exclusive: true, dependency: 7, weight: 1 },
        }),
        Frame::RstStream(RstStreamFrame { stream_id: 3, error_code: ErrorCode::RefusedStream }),
        Frame::Settings(SettingsFrame::new(vec![Setting { id: SettingId::EnablePush, value: 0 }])),
        Frame::PushPromise(PushPromiseFrame {
            stream_id: 3,
            end_headers: false,
            promised_stream_id: 4,
            header_block_fragment: vec![],
        }),
        Frame::Ping(PingFrame { ack: true, opaque_data: [9; 8] }),
        Frame::GoAway(GoAwayFrame {
            last_stream_id: 5,
            error_code: ErrorCode::NoError,
            debug_data: vec![],
        }),
        Frame::WindowUpdate(WindowUpdateFrame { stream_id: 3, window_size_increment: 1 }),
        Frame::Continuation(ContinuationFrame {
            stream_id: 3,
            end_headers: true,
            header_block_fragment: vec![5, 6],
        }),
        Frame::Unknown {
            frame_type: 0x20,
            flags: Flags::from_bits_truncate(0x81),
            stream_id: 9,
            payload: vec![1],
        },
    ];
    for f in frames {
        let mut buf = Vec::new();
        f.encode(&mut buf);
        let header = FrameHeader::decode(&buf).unwrap();
        let decoded = Frame::decode(&header, &buf[FRAME_HEADER_LEN..]).unwrap();
        assert_eq!(decoded, f);
        assert_eq!(decoded.stream_id(), header.stream_id);
    }
}

#[test]
fn frame_decode_passes_errors_through() {
    let header = FrameHeader::new(4, FrameType::Ping, Flags::none(), 0);
    assert_eq!(
        Frame::decode(&header, &[0; 4]),
        Err(H2Error::Connection(ErrorCode::FrameSizeError, "PING frame must be exactly 8 octets"))
    );
}

#[test]
fn frame_stream_ids() {
    assert_eq!(Frame::Settings(SettingsFrame::ack()).stream_id(), 0);
    assert_eq!(Frame::Data(DataFrame::new(11, vec![], false)).stream_id(), 11);
    assert_eq!(Frame::Unknown { frame_type: 0x30, flags: Flags::none(), stream_id: 12, payload: vec![] }.stream_id(), 12);
}

#[test]
fn unknown_frame_keeps_its_flags() {
    let buf = vec![0, 0, 3, 0xff, 0x01, 0, 0, 0, 1, b'a', b'b', b'c'];
    let header = FrameHeader::decode(&buf).unwrap();
    let decoded = Frame::decode(&header, &buf[FRAME_HEADER_LEN..]).unwrap();
    assert_eq!(
        decoded,
        Frame::Unknown {
            frame_type: 0xff,
            flags: Flags::from_bits_truncate(0x01),
            stream_id: 1,
            payload: b"abc".to_vec(),
        }
    );
    let mut re_encoded = Vec::new();
    decoded.encode(&mut re_encoded);
    assert_eq!(re_encoded, buf);
}
