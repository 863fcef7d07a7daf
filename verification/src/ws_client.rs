//! Decision logic of the generic reconnecting websocket client.
//!
//! The transport itself (socket, timers, TLS) lives outside the library;
//! here is the classification every received transport event goes through.
//! An abrupt end of stream, a protocol reset without a closing handshake and
//! an HTTP 429 during the handshake are all folded into a close frame, so
//! that the receive loop treats them uniformly as reconnect triggers and the
//! caller never sees them as errors.

use vstd::prelude::*;

verus! {

/// A decoded inbound message type that can synthesize a keepalive-reply
/// sentinel, letting the caller observe liveness without special-casing
/// transport internals.
pub trait WsMessage: Sized {
    /// The sentinel value standing for a keepalive reply.
    fn pong() -> Self;
}

/// A websocket frame as the transport hands it over.
#[derive(Debug, PartialEq, Eq, Clone)]
pub enum WsFrame {
    Text(String),
    Binary(Vec<u8>),
    Close,
    Ping(Vec<u8>),
    Pong(Vec<u8>),
    /// A raw partial frame; never expected outside the transport.
    Frame,
}

/// A transport-level receive failure.
#[derive(Debug, PartialEq, Eq, Copy, Clone, Structural)]
pub enum WsTransportError {
    /// The peer reset the connection without a closing handshake.
    ResetWithoutClosingHandshake,
    /// An HTTP error response during the handshake.
    Http { status: u16 },
    /// Any other transport failure.
    Other,
}

/// What one attempt to receive produced.
#[derive(Debug, PartialEq, Eq, Clone)]
pub enum WsRawEvent {
    /// The stream ended with no final frame: an abrupt peer-initiated close.
    StreamEnd,
    /// The transport reported an error.
    Failed(WsTransportError),
    /// A frame arrived.
    Received(WsFrame),
}

/// HTTP status for "too many requests"; during the handshake it is treated
/// as a reconnect trigger, not an error.
pub const HTTP_TOO_MANY_REQUESTS: u16 = 429;

/// Classification of a raw receive: an end of stream, a reset without a
/// closing handshake, and an HTTP 429 all become a close frame; every other
/// failure is surfaced; a received frame passes through.
pub open spec fn spec_classify_recv(ev: WsRawEvent) -> Result<WsFrame, WsTransportError> {
    match ev {
        WsRawEvent::StreamEnd => Ok(WsFrame::Close),
        WsRawEvent::Failed(e) => match e {
            WsTransportError::ResetWithoutClosingHandshake => Ok(WsFrame::Close),
            WsTransportError::Http { status } => if status == HTTP_TOO_MANY_REQUESTS {
                Ok(WsFrame::Close)
            } else {
                Err(e)
            },
            WsTransportError::Other => Err(e),
        },
        WsRawEvent::Received(f) => Ok(f),
    }
}

/// Executable form of [`spec_classify_recv`].
pub fn classify_recv(ev: WsRawEvent) -> (r: Result<WsFrame, WsTransportError>)
    ensures
        r == spec_classify_recv(ev),
{
    match ev {
        WsRawEvent::StreamEnd => Ok(WsFrame::Close),
        WsRawEvent::Failed(e) => match e {
            WsTransportError::ResetWithoutClosingHandshake => Ok(WsFrame::Close),
            WsTransportError::Http { status } => if status == HTTP_TOO_MANY_REQUESTS {
                Ok(WsFrame::Close)
            } else {
                Err(e)
            },
            WsTransportError::Other => Err(e),
        },
        WsRawEvent::Received(f) => Ok(f),
    }
}

/// A deliverable message payload.
#[derive(Debug, PartialEq, Eq, Clone)]
pub enum WsPayload {
    Text(String),
    Binary(Vec<u8>),
}

/// Abstract value of a payload: the character or byte sequence it carries.
pub ghost enum WsPayloadView {
    Text(Seq<char>),
    Binary(Seq<u8>),
}

impl View for WsPayload {
    type V = WsPayloadView;

    open spec fn view(&self) -> WsPayloadView {
        match self {
            WsPayload::Text(s) => WsPayloadView::Text(s@),
            WsPayload::Binary(b) => WsPayloadView::Binary(b@),
        }
    }
}

/// What the receive loop does with one classified event.
#[derive(Debug, PartialEq, Eq, Clone)]
pub enum WsStep {
    /// Hand the payload to the decoder.
    Deliver(WsPayload),
    /// Reconnect and resubscribe, then keep receiving.
    Reconnect,
    /// Return the keepalive-reply sentinel.
    PongReply,
    /// Fail with an "unsupported message" error.
    Unsupported,
    /// Surface the transport error.
    Fatal(WsTransportError),
}

/// Abstract value of a step.
pub ghost enum WsStepView {
    Deliver(WsPayloadView),
    Reconnect,
    PongReply,
    Unsupported,
    Fatal(WsTransportError),
}

impl View for WsStep {
    type V = WsStepView;

    open spec fn view(&self) -> WsStepView {
        match self {
            WsStep::Deliver(p) => WsStepView::Deliver(p@),
            WsStep::Reconnect => WsStepView::Reconnect,
            WsStep::PongReply => WsStepView::PongReply,
            WsStep::Unsupported => WsStepView::Unsupported,
            WsStep::Fatal(e) => WsStepView::Fatal(*e),
        }
    }
}

/// The step one raw event leads to: payloads are delivered, a close frame
/// (native or synthesized by [`spec_classify_recv`]) triggers a reconnect, a
/// pong becomes the sentinel message, anything else is unsupported.
pub open spec fn spec_next_step(ev: WsRawEvent) -> WsStepView {
    match spec_classify_recv(ev) {
        Err(e) => WsStepView::Fatal(e),
        Ok(f) => match f {
            WsFrame::Text(s) => WsStepView::Deliver(WsPayloadView::Text(s@)),
            WsFrame::Binary(b) => WsStepView::Deliver(WsPayloadView::Binary(b@)),
            WsFrame::Close => WsStepView::Reconnect,
            WsFrame::Pong(_) => WsStepView::PongReply,
            WsFrame::Ping(_) => WsStepView::Unsupported,
            WsFrame::Frame => WsStepView::Unsupported,
        },
    }
}

/// Copies a byte payload.
fn clone_bytes(b: &Vec<u8>) -> (r: Vec<u8>)
    ensures
        r@ == b@,
{
    let r = b.clone();
    proof {
        assert forall|i: int| 0 <= i < b@.len() implies r@[i] == b@[i] by {
            assert(cloned::<u8>(b@[i], r@[i]));
        }
        assert(r@ =~= b@);
    }
    r
}

/// Executable form of [`spec_next_step`].
pub fn next_step(ev: &WsRawEvent) -> (r: WsStep)
    ensures
        r@ == spec_next_step(*ev),
{
    match ev {
        WsRawEvent::StreamEnd => WsStep::Reconnect,
        WsRawEvent::Failed(e) => match e {
            WsTransportError::ResetWithoutClosingHandshake => WsStep::Reconnect,
            WsTransportError::Http { status } => if *status == HTTP_TOO_MANY_REQUESTS {
                WsStep::Reconnect
            } else {
                WsStep::Fatal(*e)
            },
            WsTransportError::Other => WsStep::Fatal(*e),
        },
        WsRawEvent::Received(f) => match f {
            WsFrame::Text(s) => WsStep::Deliver(WsPayload::Text(s.clone())),
            WsFrame::Binary(b) => WsStep::Deliver(WsPayload::Binary(clone_bytes(b))),
            WsFrame::Close => WsStep::Reconnect,
            WsFrame::Pong(_) => WsStep::PongReply,
            WsFrame::Ping(_) => WsStep::Unsupported,
            WsFrame::Frame => WsStep::Unsupported,
        },
    }
}

/// How one call of the client's receive loop ends.
#[derive(Debug, PartialEq, Eq, Clone)]
pub enum WsNextOutcome {
    /// A payload reached the decoder.
    Message(WsPayload),
    /// The keepalive-reply sentinel was returned.
    PongMessage,
    /// An unsupported frame kind was received.
    UnsupportedError,
    /// A non-recoverable transport error was surfaced.
    TransportError(WsTransportError),
    /// The event sequence ran out while still reconnecting.
    Starved,
}

/// Abstract value of an outcome.
pub ghost enum WsNextOutcomeView {
    Message(WsPayloadView),
    PongMessage,
    UnsupportedError,
    TransportError(WsTransportError),
    Starved,
}

impl View for WsNextOutcome {
    type V = WsNextOutcomeView;

    open spec fn view(&self) -> WsNextOutcomeView {
        match self {
            WsNextOutcome::Message(p) => WsNextOutcomeView::Message(p@),
            WsNextOutcome::PongMessage => WsNextOutcomeView::PongMessage,
            WsNextOutcome::UnsupportedError => WsNextOutcomeView::UnsupportedError,
            WsNextOutcome::TransportError(e) => WsNextOutcomeView::TransportError(*e),
            WsNextOutcome::Starved => WsNextOutcomeView::Starved,
        }
    }
}

/// The receive loop over a sequence of raw transport events, starting at
/// event `i`: reconnect triggers are consumed (and counted) silently, and
/// the first non-reconnect step ends the call. Returns the outcome, the
/// index of the next unconsumed event, and how many reconnects happened.
pub open spec fn spec_run_next(evs: Seq<WsRawEvent>, i: int) -> (WsNextOutcomeView, int, int)
    decreases evs.len() - i,
{
    if i < 0 || i >= evs.len() {
        (WsNextOutcomeView::Starved, i, 0)
    } else {
        match spec_next_step(evs[i]) {
            WsStepView::Deliver(p) => (WsNextOutcomeView::Message(p), i + 1, 0),
            WsStepView::PongReply => (WsNextOutcomeView::PongMessage, i + 1, 0),
            WsStepView::Unsupported => (WsNextOutcomeView::UnsupportedError, i + 1, 0),
            WsStepView::Fatal(e) => (WsNextOutcomeView::TransportError(e), i + 1, 0),
            WsStepView::Reconnect => {
                let rest = spec_run_next(evs, i + 1);
                (rest.0, rest.1, rest.2 + 1)
            },
        }
    }
}

/// The receive loop of the client, driven by a recorded sequence of raw
/// transport events: every reconnect trigger reconnects silently (the count
/// is reported), and the caller sees only the first delivered message,
/// sentinel, or non-recoverable error.
pub fn run_next(events: &Vec<WsRawEvent>, start: usize) -> (r: (WsNextOutcome, usize, usize))
    requires
        start <= events@.len(),
    ensures
        (r.0@, r.1 as int, r.2 as int) == spec_run_next(events@, start as int),
{
    let mut i: usize = start;
    let mut reconnects: usize = 0;
    loop
        invariant
            start <= i <= events@.len(),
            reconnects <= i,
            ({
                let full = spec_run_next(events@, start as int);
                let here = spec_run_next(events@, i as int);
                full == (here.0, here.1, here.2 + reconnects)
            }),
        decreases events@.len() - i,
    {
        if i >= events.len() {
            return (WsNextOutcome::Starved, i, reconnects);
        }
        let step = next_step(&events[i]);
        match step {
            WsStep::Deliver(p) => {
                return (WsNextOutcome::Message(p), i + 1, reconnects);
            },
            WsStep::PongReply => {
                return (WsNextOutcome::PongMessage, i + 1, reconnects);
            },
            WsStep::Unsupported => {
                return (WsNextOutcome::UnsupportedError, i + 1, reconnects);
            },
            WsStep::Fatal(e) => {
                return (WsNextOutcome::TransportError(e), i + 1, reconnects);
            },
            WsStep::Reconnect => {
                i = i + 1;
                reconnects = reconnects + 1;
            },
        }
    }
}

/// Reconnect transparency: as long as events remain, the receive loop never
/// ends with a reconnect trigger as its outcome — every close, abrupt
/// termination or rate-limit response is absorbed, and the outcome is
/// whatever the first non-reconnect event yields.
pub proof fn lemma_reconnect_transparency(evs: Seq<WsRawEvent>, i: int)
    requires
        0 <= i <= evs.len(),
    ensures
        ({
            let r = spec_run_next(evs, i);
            &&& i <= r.1 <= evs.len()
            &&& forall|j: int| i <= j < r.1 - 1 ==> spec_next_step(evs[j]) == WsStepView::Reconnect
            &&& r.0 != WsNextOutcomeView::Starved ==> r.1 - 1 >= i && spec_next_step(evs[r.1 - 1])
                != WsStepView::Reconnect
        }),
    decreases evs.len() - i,
{
    if i < evs.len() {
        if spec_next_step(evs[i]) == WsStepView::Reconnect {
            lemma_reconnect_transparency(evs, i + 1);
        }
    }
}

} // verus!
