//! HTTP/2 stream states and transitions (RFC 9113 §5.1).
use crate::error::{ErrorCode, H2Error, Result};
use vstd::prelude::*;

verus! {

/// A stream's state, per the state machine diagram in RFC 9113 §5.1.
#[derive(Debug, Clone, Copy, PartialEq, Eq)]
pub enum StreamState {
    Idle,
    ReservedLocal,
    ReservedRemote,
    Open,
    HalfClosedLocal,
    HalfClosedRemote,
    Closed,
}

/// An event that drives a stream's state transition.
#[derive(Debug, Clone, Copy, PartialEq, Eq)]
pub enum Event {
    /// We sent (Send) or received (Recv) a HEADERS frame that opens the stream.
    SendHeaders,
    RecvHeaders,
    /// A HEADERS or DATA frame carrying END_STREAM.
    SendEndStream,
    RecvEndStream,
    /// We sent/received a PUSH_PROMISE, reserving the promised stream.
    SendPushPromise,
    RecvPushPromise,
    SendRstStream,
    RecvRstStream,
}

/// A stream's state plus the transition logic. Frame types not relevant to
/// state (DATA/WINDOW_UPDATE without END_STREAM, PRIORITY, etc.) don't
/// generate an `Event` and never change state, matching RFC 9113 §5.1.
#[derive(Debug, Clone, Copy, PartialEq, Eq)]
pub struct Stream {
    pub id: u32,
    pub state: StreamState,
}

/// The transition table of RFC 9113 §5.1: the state that `event` leads to
/// from `state`, or `None` where the event is not valid in that state.
pub open spec fn next_state(state: StreamState, event: Event) -> Option<StreamState> {
    match (state, event) {
        (StreamState::Idle, Event::SendHeaders) => Some(StreamState::Open),
        (StreamState::Idle, Event::RecvHeaders) => Some(StreamState::Open),
        (StreamState::Idle, Event::SendPushPromise) => Some(StreamState::ReservedLocal),
        (StreamState::Idle, Event::RecvPushPromise) => Some(StreamState::ReservedRemote),
        (StreamState::ReservedLocal, Event::SendHeaders) => Some(StreamState::HalfClosedRemote),
        (StreamState::ReservedRemote, Event::RecvHeaders) => Some(StreamState::HalfClosedLocal),
        (StreamState::ReservedLocal, Event::SendRstStream) => Some(StreamState::Closed),
        (StreamState::ReservedLocal, Event::RecvRstStream) => Some(StreamState::Closed),
        (StreamState::ReservedRemote, Event::SendRstStream) => Some(StreamState::Closed),
        (StreamState::ReservedRemote, Event::RecvRstStream) => Some(StreamState::Closed),
        (StreamState::Open, Event::SendEndStream) => Some(StreamState::HalfClosedLocal),
        (StreamState::Open, Event::RecvEndStream) => Some(StreamState::HalfClosedRemote),
        (StreamState::Open, Event::SendRstStream) => Some(StreamState::Closed),
        (StreamState::Open, Event::RecvRstStream) => Some(StreamState::Closed),
        (StreamState::HalfClosedLocal, Event::RecvEndStream) => Some(StreamState::Closed),
        (StreamState::HalfClosedLocal, Event::SendRstStream) => Some(StreamState::Closed),
        (StreamState::HalfClosedLocal, Event::RecvRstStream) => Some(StreamState::Closed),
        (StreamState::HalfClosedRemote, Event::SendEndStream) => Some(StreamState::Closed),
        (StreamState::HalfClosedRemote, Event::SendRstStream) => Some(StreamState::Closed),
        (StreamState::HalfClosedRemote, Event::RecvRstStream) => Some(StreamState::Closed),
        _ => None,
    }
}

impl Stream {
    pub fn new(id: u32) -> (s: Self)
        ensures
            s.id == id,
            s.state == StreamState::Idle,
    {
        Stream { id, state: StreamState::Idle }
    }

    /// Apply `event`, returning a stream error (RFC 9113 §5.4.2) if the
    /// event is invalid for the current state.
    pub fn apply(&mut self, event: Event) -> (r: Result<()>)
        ensures
            final(self).id == old(self).id,
            match next_state(old(self).state, event) {
                Some(n) => r is Ok && final(self).state == n,
                None => r == Err::<(), H2Error>(
                    H2Error::Stream(
                        old(self).id,
                        ErrorCode::StreamClosed,
                        "event is not valid for the stream's current state",
                    ),
                ) && *final(self) == *old(self),
            },
    {
        let next = match (self.state, event) {
            (StreamState::Idle, Event::SendHeaders) | (StreamState::Idle, Event::RecvHeaders) => {
                StreamState::Open
            },
            (StreamState::Idle, Event::SendPushPromise) => StreamState::ReservedLocal,
            (StreamState::Idle, Event::RecvPushPromise) => StreamState::ReservedRemote,
            (StreamState::ReservedLocal, Event::SendHeaders) => StreamState::HalfClosedRemote,
            (StreamState::ReservedRemote, Event::RecvHeaders) => StreamState::HalfClosedLocal,
            (StreamState::ReservedLocal, Event::SendRstStream)
            | (StreamState::ReservedLocal, Event::RecvRstStream) => StreamState::Closed,
            (StreamState::ReservedRemote, Event::SendRstStream)
            | (StreamState::ReservedRemote, Event::RecvRstStream) => StreamState::Closed,
            (StreamState::Open, Event::SendEndStream) => StreamState::HalfClosedLocal,
            (StreamState::Open, Event::RecvEndStream) => StreamState::HalfClosedRemote,
            (StreamState::Open, Event::SendRstStream)
            | (StreamState::Open, Event::RecvRstStream) => StreamState::Closed,
            (StreamState::HalfClosedLocal, Event::RecvEndStream) => StreamState::Closed,
            (StreamState::HalfClosedLocal, Event::SendRstStream)
            | (StreamState::HalfClosedLocal, Event::RecvRstStream) => StreamState::Closed,
            (StreamState::HalfClosedRemote, Event::SendEndStream) => StreamState::Closed,
            (StreamState::HalfClosedRemote, Event::SendRstStream)
            | (StreamState::HalfClosedRemote, Event::RecvRstStream) => StreamState::Closed,
            // A HEADERS carrying END_STREAM triggers both SendHeaders (or
            // RecvHeaders) and SendEndStream/RecvEndStream in sequence;
            // callers apply both events. Anything else is a protocol error.
            _ => {
                return Err(
                    H2Error::Stream(
                        self.id,
                        ErrorCode::StreamClosed,
                        "event is not valid for the stream's current state",
                    ),
                )
            },
        };
        self.state = next;
        Ok(())
    }

    pub fn is_closed(&self) -> (b: bool)
        ensures
            b == (self.state == StreamState::Closed),
    {
        matches!(self.state, StreamState::Closed)
    }
}

/// A closed stream accepts no further event.
pub proof fn lemma_closed_is_final(event: Event)
    ensures
        next_state(StreamState::Closed, event) is None,
{
}

/// No transition ever leads back to `Idle`.
pub proof fn lemma_never_back_to_idle(state: StreamState, event: Event)
    ensures
        next_state(state, event) != Some(StreamState::Idle),
{
}

/// RST_STREAM, sent or received, closes a stream from every state in which
/// it is reserved, open or half-closed.
pub proof fn lemma_rst_stream_closes(state: StreamState, event: Event)
    requires
        state != StreamState::Idle,
        state != StreamState::Closed,
        event == Event::SendRstStream || event == Event::RecvRstStream,
    ensures
        next_state(state, event) == Some(StreamState::Closed),
{
}

/// An idle stream accepts only the events that open or reserve it.
pub proof fn lemma_idle_accepts_only_openers(event: Event)
    ensures
        next_state(StreamState::Idle, event) is Some <==> (event == Event::SendHeaders || event
            == Event::RecvHeaders || event == Event::SendPushPromise || event
            == Event::RecvPushPromise),
{
}

/// END_STREAM closes one direction at a time (RFC 9113 §5.1): receiving it
/// on an open stream half-closes the remote side, sending it half-closes the
/// local side; the stream is closed once both sides have ended, in either
/// order, and a side cannot end twice.
pub proof fn lemma_end_stream_half_closes()
    ensures
        next_state(StreamState::Open, Event::RecvEndStream) == Some(StreamState::HalfClosedRemote),
        next_state(StreamState::Open, Event::SendEndStream) == Some(StreamState::HalfClosedLocal),
        next_state(StreamState::HalfClosedRemote, Event::SendEndStream) == Some(StreamState::Closed),
        next_state(StreamState::HalfClosedLocal, Event::RecvEndStream) == Some(StreamState::Closed),
        next_state(StreamState::HalfClosedRemote, Event::RecvEndStream) is None,
        next_state(StreamState::HalfClosedLocal, Event::SendEndStream) is None,
        forall|first: Event, second: Event|
            (first == Event::SendEndStream && second == Event::RecvEndStream || first
                == Event::RecvEndStream && second == Event::SendEndStream) ==> #[trigger] next_state(
                next_state(StreamState::Open, first)->Some_0,
                second,
            ) == Some(StreamState::Closed),
{
}

/// A locally reserved stream can only be opened by sending HEADERS, and
/// then only toward the peer (half-closed remote); a remotely reserved one
/// only by receiving HEADERS, half-closed local (RFC 9113 §5.1).
pub proof fn lemma_reserved_streams_open_one_way(e: Event)
    ensures
        next_state(StreamState::ReservedLocal, e) == Some(StreamState::HalfClosedRemote) <==> e
            == Event::SendHeaders,
        next_state(StreamState::ReservedRemote, e) == Some(StreamState::HalfClosedLocal) <==> e
            == Event::RecvHeaders,
        next_state(StreamState::Idle, Event::SendPushPromise) == Some(StreamState::ReservedLocal),
        next_state(StreamState::Idle, Event::RecvPushPromise) == Some(StreamState::ReservedRemote),
        next_state(StreamState::Idle, Event::SendHeaders) == Some(StreamState::Open),
        next_state(StreamState::Idle, Event::RecvHeaders) == Some(StreamState::Open),
{
}

} // verus!
