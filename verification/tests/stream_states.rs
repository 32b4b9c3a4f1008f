use rusty_h2::error::{ErrorCode, H2Error};
use rusty_h2::stream::Event::{
    RecvEndStream, RecvHeaders, RecvPushPromise, RecvRstStream, SendEndStream, SendHeaders,
    SendPushPromise, SendRstStream,
};
use rusty_h2::stream::StreamState::{
    Closed, HalfClosedLocal, HalfClosedRemote, Idle, Open, ReservedLocal, ReservedRemote,
};
use rusty_h2::stream::{Event, Stream, StreamState};

const ALL_EVENTS: [Event; 8] = [
    SendHeaders,
    RecvHeaders,
    SendEndStream,
    RecvEndStream,
    SendPushPromise,
    RecvPushPromise,
    SendRstStream,
    RecvRstStream,
];

fn stream_in(state: StreamState) -> Stream {
    Stream { id: 1, state }
}

#[test]
fn idle_to_open_via_headers() {
    let mut s = Stream::new(1);
    s.apply(RecvHeaders).unwrap();
    assert_eq!(s.state, Open);
}

#[test]
fn full_request_response_cycle() {
    let mut s = Stream::new(1);
    s.apply(SendHeaders).unwrap();
    assert_eq!(s.state, Open);
    s.apply(SendEndStream).unwrap();
    assert_eq!(s.state, HalfClosedLocal);
    s.apply(RecvEndStream).unwrap();
    assert_eq!(s.state, Closed);
    assert!(s.is_closed());
}

#[test]
fn push_promise_reserves_stream() {
    let mut s = Stream::new(2);
    s.apply(RecvPushPromise).unwrap();
    assert_eq!(s.state, ReservedRemote);
    s.apply(RecvHeaders).unwrap();
    assert_eq!(s.state, HalfClosedLocal);
}

#[test]
fn rst_stream_closes_from_any_active_state() {
    for event in [SendHeaders, RecvHeaders] {
        let mut s = Stream::new(1);
        s.apply(event).unwrap();
        s.apply(RecvRstStream).unwrap();
        assert_eq!(s.state, Closed);
    }
}

#[test]
fn invalid_transition_is_stream_error() {
    let mut s = Stream::new(1);
    assert!(s.apply(SendEndStream).is_err());
}

#[test]
fn closed_stream_rejects_further_events() {
    let mut s = Stream::new(1);
    s.apply(SendHeaders).unwrap();
    s.apply(SendRstStream).unwrap();
    assert!(s.apply(RecvHeaders).is_err());
}

#[test]
fn rejected_event_error_and_state_unchanged() {
    let mut s = Stream::new(7);
    assert_eq!(
        s.apply(RecvEndStream),
        Err(H2Error::Stream(
            7,
            ErrorCode::StreamClosed,
            "event is not valid for the stream's current state"
        ))
    );
    assert_eq!(s, Stream::new(7));
}

#[test]
fn closed_is_final_for_every_event() {
    for event in ALL_EVENTS {
        let mut s = stream_in(Closed);
        assert!(s.apply(event).is_err());
        assert_eq!(s.state, Closed);
    }
}

#[test]
fn rst_stream_closes_every_non_idle_open_state() {
    for state in [ReservedLocal, ReservedRemote, Open, HalfClosedLocal, HalfClosedRemote] {
        for event in [SendRstStream, RecvRstStream] {
            let mut s = stream_in(state);
            s.apply(event).unwrap();
            assert_eq!(s.state, Closed);
        }
    }
}

#[test]
fn no_transition_returns_to_idle() {
    for state in [Idle, ReservedLocal, ReservedRemote, Open, HalfClosedLocal, HalfClosedRemote, Closed]
    {
        for event in ALL_EVENTS {
            let mut s = stream_in(state);
            if s.apply(event).is_ok() {
                assert_ne!(s.state, Idle);
            }
        }
    }
}

#[test]
fn idle_accepts_only_openers() {
    for event in ALL_EVENTS {
        let mut s = Stream::new(3);
        let ok = s.apply(event).is_ok();
        let opener = matches!(event, SendHeaders | RecvHeaders | SendPushPromise | RecvPushPromise);
        assert_eq!(ok, opener);
    }
}

#[test]
fn half_closed_transitions() {
    let mut s = stream_in(HalfClosedRemote);
    s.apply(SendEndStream).unwrap();
    assert_eq!(s.state, Closed);
    let mut s = stream_in(HalfClosedLocal);
    assert!(s.apply(SendEndStream).is_err());
    let mut s = stream_in(ReservedLocal);
    s.apply(SendHeaders).unwrap();
    assert_eq!(s.state, HalfClosedRemote);
    assert!(!s.is_closed());
}
