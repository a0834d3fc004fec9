use vstd::prelude::*;
use crate::frames::{
    classify_text, event_kind, event_payload, expected_shape, json_shape_of, parse_event, text_kind,
    EventKind, WebsocketEvent,
};

verus! {

/// Base of every stream target; the stream path follows it.
pub const WEBSOCKET_URL: &'static str = "wss://stream.binance.com:9443/ws/";

/// One inbound unit of the stream.
#[derive(Clone, Debug, PartialEq, Eq)]
pub enum Frame {
    Text(String),
    Binary(Vec<u8>),
    Ping(Vec<u8>),
    Pong(Vec<u8>),
    /// A close frame with the reason the remote gave (empty where none).
    Close(String),
}

/// Why a stream session refused a step or its loop stopped.
#[derive(Clone, Debug, PartialEq, Eq)]
pub enum StreamError {
    /// The stream target is not a URL.
    InvalidUrl,
    /// The handshake failed, with its message.
    Handshake(String),
    /// A disconnect was asked for while no connection was open.
    NotConnected,
    /// The remote closed the stream, with its reason.
    Closed(String),
    /// A frame classified as this kind does not have the promised shape.
    ProtocolViolation(EventKind),
    /// The handler failed, with its message.
    Handler(String),
    /// Reading the next frame failed, with the transport's message.
    Transport(String),
}

/// What one frame asks of the loop.
#[derive(Clone, Debug, PartialEq, Eq)]
pub enum FrameOutcome {
    /// Nothing to deliver; read on.
    Skip,
    /// Hand this event to the handler.
    Deliver(WebsocketEvent),
    /// End the loop with this error.
    Stop(StreamError),
}

/// The kind and payload a frame delivers, if it delivers one.
pub open spec fn deliverable(f: Frame) -> Option<(EventKind, Seq<char>)> {
    match f {
        Frame::Text(t) => match text_kind(t@) {
            Some(k) => if json_shape_of(t@) == expected_shape(k) {
                Some((k, t@))
            } else {
                None
            },
            None => None,
        },
        _ => None,
    }
}

/// Whether `e` is the error with which the frame `f` ends the loop: a close
/// frame with its reason, or a text frame of some kind whose payload does not
/// have that kind's shape.
pub open spec fn stop_error(f: Frame, e: StreamError) -> bool {
    match f {
        Frame::Text(t) => match text_kind(t@) {
            Some(k) => json_shape_of(t@) != expected_shape(k) && e == StreamError::ProtocolViolation(k),
            None => false,
        },
        Frame::Close(reason) => e matches StreamError::Closed(m) && m@ == reason@,
        _ => false,
    }
}

/// Whether the frame `f` ends the loop by itself.
pub open spec fn stops(f: Frame) -> bool {
    exists|e: StreamError| #[trigger] stop_error(f, e)
}

/// What classifying a frame gives: a delivery for a text frame of a kind
/// whose payload has its shape, a stop for a close frame or a payload of the
/// wrong shape, and a skip for everything else.
pub open spec fn outcome_of(f: Frame, r: FrameOutcome) -> bool {
    match r {
        FrameOutcome::Skip => deliverable(f) is None && !stops(f),
        FrameOutcome::Deliver(ev) => deliverable(f) == Some((event_kind(ev), event_payload(ev))),
        FrameOutcome::Stop(e) => stop_error(f, e),
    }
}

/// Classifies one frame. Ping, pong and binary frames are skipped, as are
/// text frames of no kind.
pub fn classify_frame(frame: &Frame) -> (r: FrameOutcome)
    ensures
        outcome_of(*frame, r),
{
    match frame {
        Frame::Text(t) => match classify_text(t.as_str()) {
            None => FrameOutcome::Skip,
            Some(k) => match parse_event(k, t.as_str()) {
                Some(ev) => FrameOutcome::Deliver(ev),
                None => FrameOutcome::Stop(StreamError::ProtocolViolation(k)),
            },
        },
        Frame::Close(reason) => {
            let e = StreamError::Closed(String::from_str(reason.as_str()));
            FrameOutcome::Stop(e)
        },
        _ => FrameOutcome::Skip,
    }
}

/// Whether `s` parses as a URL.
pub uninterp spec fn url_parses(s: Seq<char>) -> bool;

/// Relies on url::Url::parse: whether the text is a URL it accepts.
#[verifier::external_body]
fn parses_as_url(s: &str) -> (r: bool)
    ensures
        r == url_parses(s@),
{
    url::Url::parse(s).is_ok()
}

/// One call of a handler: the event it was given and what it returned.
pub type HandlerCall = (WebsocketEvent, Result<(), String>);

/// Caller logic run on each event. A failure ends the loop.
pub trait EventHandler {
    /// The calls made so far, in order. An implementation checked by the
    /// verifier defines it; the default stands only for implementations
    /// written outside it, which callers cannot tell apart from any other.
    closed spec fn log(&self) -> Seq<HandlerCall> {
        Seq::empty()
    }

    /// Handles one event; each call is recorded with its result.
    fn handle(&mut self, event: WebsocketEvent) -> (r: Result<(), String>)
        ensures
            final(self).log() == old(self).log().push((event, r)),
    ;
}

/// The kinds and payloads of the events in a run of handler calls.
pub open spec fn log_events(calls: Seq<HandlerCall>) -> Seq<(EventKind, Seq<char>)> {
    calls.map_values(|c: HandlerCall| (event_kind(c.0), event_payload(c.0)))
}

/// Whether every call in the run returned `Ok`.
pub open spec fn all_ok(calls: Seq<HandlerCall>) -> bool {
    forall|k: int| 0 <= k < calls.len() ==> (#[trigger] calls[k]).1 is Ok
}

/// The step result that a handler's result gives: its failure, carried as is.
pub open spec fn step_of(hr: Result<(), String>) -> Result<(), StreamError> {
    match hr {
        Ok(()) => Ok(()),
        Err(m) => Err(StreamError::Handler(m)),
    }
}

/// The events a run of frames delivers, in order.
pub open spec fn delivered_of(frames: Seq<Frame>) -> Seq<(EventKind, Seq<char>)>
    decreases frames.len(),
{
    if frames.len() == 0 {
        Seq::empty()
    } else {
        delivered_of(frames.drop_last()) + match deliverable(frames.last()) {
            Some(d) => seq![d],
            None => Seq::empty(),
        }
    }
}

/// The calls a handler received after its log stood at `before`.
pub open spec fn calls_since(before: Seq<HandlerCall>, after: Seq<HandlerCall>) -> Seq<HandlerCall> {
    after.subrange(before.len() as int, after.len() as int)
}

/// A stream session: whether a connection is open, and the caller's handler.
pub struct WebSockets<H: EventHandler> {
    connected: bool,
    handler: H,
}

impl<H: EventHandler> WebSockets<H> {
    pub closed spec fn is_open(&self) -> bool {
        self.connected
    }

    pub closed spec fn handler_spec(&self) -> H {
        self.handler
    }

    /// The calls made to the handler so far.
    pub open spec fn calls(&self) -> Seq<HandlerCall> {
        self.handler_spec().log()
    }

    /// A disconnected session around `handler`.
    pub fn new(handler: H) -> (r: Self)
        ensures
            !r.is_open(),
            r.handler_spec() == handler,
    {
        WebSockets { connected: false, handler }
    }

    pub fn is_connected(&self) -> (r: bool)
        ensures
            r == self.is_open(),
    {
        self.connected
    }

    pub fn event_handler(&self) -> (r: &H)
        ensures
            *r == self.handler_spec(),
    {
        &self.handler
    }

    /// The target of a stream: the fixed base followed by `endpoint`, refused
    /// where that is not a URL.
    pub fn connect_url(endpoint: &str) -> (r: Result<String, StreamError>)
        ensures
            r is Ok <==> url_parses(WEBSOCKET_URL@ + endpoint@),
            r matches Ok(u) ==> u@ == WEBSOCKET_URL@ + endpoint@,
            r matches Err(e) ==> e is InvalidUrl,
    {
        let mut url = String::from_str(WEBSOCKET_URL);
        url.append(endpoint);
        if parses_as_url(url.as_str()) {
            Ok(url)
        } else {
            Err(StreamError::InvalidUrl)
        }
    }

    /// Records how the handshake went: a success opens the session, a failure
    /// leaves it as it was and is reported with its message.
    pub fn on_handshake(&mut self, outcome: Result<(), String>) -> (r: Result<(), StreamError>)
        ensures
            final(self).handler_spec() == old(self).handler_spec(),
            outcome is Ok ==> r is Ok && final(self).is_open(),
            outcome matches Err(m) ==> (r matches Err(StreamError::Handshake(m2)) && m2@ == m@)
                && final(self).is_open() == old(self).is_open(),
    {
        match outcome {
            Ok(()) => {
                self.connected = true;
                Ok(())
            },
            Err(m) => Err(StreamError::Handshake(m)),
        }
    }

    /// Closes the session; refused while no connection is open.
    pub fn disconnect(&mut self) -> (r: Result<(), StreamError>)
        ensures
            final(self).handler_spec() == old(self).handler_spec(),
            !final(self).is_open(),
            old(self).is_open() <==> r is Ok,
            r matches Err(e) ==> e is NotConnected,
    {
        if self.connected {
            self.connected = false;
            Ok(())
        } else {
            Err(StreamError::NotConnected)
        }
    }

    /// One step of the loop: classifies the frame and hands what it delivers
    /// to the handler. `Ok` asks for the next frame; an error ends the loop.
    /// A frame that delivers nothing leaves the handler untouched; one that
    /// delivers an event calls the handler once with it, and the step then
    /// fails exactly when the handler did, with the handler's own failure.
    pub fn handle_frame(&mut self, frame: &Frame) -> (r: Result<(), StreamError>)
        ensures
            final(self).is_open() == old(self).is_open(),
            deliverable(*frame) is None ==> final(self).handler_spec() == old(self).handler_spec()
                && (r is Ok <==> !stops(*frame)) && (r matches Err(e) ==> stop_error(*frame, e)),
            deliverable(*frame) matches Some(d) ==> final(self).calls().len() == old(self).calls().len() + 1
                && final(self).calls().drop_last() == old(self).calls()
                && (event_kind(final(self).calls().last().0), event_payload(final(self).calls().last().0)) == d
                && r == step_of(final(self).calls().last().1),
    {
        match classify_frame(frame) {
            FrameOutcome::Skip => Ok(()),
            FrameOutcome::Stop(e) => Err(e),
            FrameOutcome::Deliver(ev) => {
                let r = self.handler.handle(ev);
                match r {
                    Ok(()) => Ok(()),
                    Err(m) => Err(StreamError::Handler(m)),
                }
            },
        }
    }

    /// Drives the loop over frames in the order read, stopping at the first
    /// error. Returns how many frames were taken and how the loop ended: frames
    /// after the one that stopped it are not looked at. The handler is called
    /// once for each event the frames taken deliver, in order; every call but
    /// the last returned `Ok`, and a handler failure ends the loop carried as
    /// is. A session that is not open takes none.
    pub fn run_frames(&mut self, frames: &Vec<Frame>) -> (r: (usize, Result<(), StreamError>))
        ensures
            final(self).is_open() == old(self).is_open(),
            !old(self).is_open() ==> r.0 == 0 && r.1 is Ok && final(self).handler_spec() == old(
                self,
            ).handler_spec(),
            r.0 <= frames@.len(),
            old(self).calls().len() <= final(self).calls().len(),
            final(self).calls().subrange(0, old(self).calls().len() as int) == old(self).calls(),
            log_events(calls_since(old(self).calls(), final(self).calls())) == delivered_of(
                frames@.subrange(0, r.0 as int),
            ),
            forall|j: int| 0 <= j < r.0 - 1 ==> !stops(#[trigger] frames@[j]),
            forall|k: int|
                0 <= k < calls_since(old(self).calls(), final(self).calls()).len() - 1
                    ==> (#[trigger] calls_since(old(self).calls(), final(self).calls())[k]).1 is Ok,
            r.1 is Ok ==> all_ok(calls_since(old(self).calls(), final(self).calls())),
            old(self).is_open() && r.1 is Ok ==> r.0 == frames@.len() && forall|j: int|
                0 <= j < r.0 ==> !stops(#[trigger] frames@[j]),
            r.1 matches Err(e) ==> r.0 >= 1 && (stop_error(frames@[r.0 - 1], e) || (deliverable(
                frames@[r.0 - 1],
            ) is Some && final(self).calls().len() > old(self).calls().len() && r.1 == step_of(
                final(self).calls().last().1,
            ))),
            r.1 matches Err(e) && stop_error(frames@[r.0 - 1], e) ==> all_ok(
                calls_since(old(self).calls(), final(self).calls()),
            ),
    {
        let ghost start = self.handler.log();
        if !self.connected {
            assert(frames@.subrange(0, 0) =~= Seq::<Frame>::empty());
            assert(calls_since(start, start) =~= Seq::<HandlerCall>::empty());
            assert(log_events(calls_since(start, start)) =~= Seq::<(EventKind, Seq<char>)>::empty());
            assert(start.subrange(0, start.len() as int) =~= start);
            return (0, Ok(()));
        }
        let mut i: usize = 0;
        proof {
            assert(frames@.subrange(0, 0) =~= Seq::<Frame>::empty());
            assert(log_events(calls_since(start, start)) =~= Seq::<(EventKind, Seq<char>)>::empty());
            assert(start.subrange(0, start.len() as int) =~= start);
        }
        while i < frames.len()
            invariant
                i <= frames@.len(),
                self.connected == old(self).connected,
                self.connected,
                start == old(self).handler.log(),
                start.len() <= self.handler.log().len(),
                self.handler.log().subrange(0, start.len() as int) == start,
                log_events(calls_since(start, self.handler.log())) == delivered_of(
                    frames@.subrange(0, i as int),
                ),
                all_ok(calls_since(start, self.handler.log())),
                forall|j: int| 0 <= j < i ==> !stops(#[trigger] frames@[j]),
            decreases frames@.len() - i,
        {
            let ghost before = self.handler.log();
            let step = self.handle_frame(&frames[i]);
            proof {
                let after = self.handler.log();
                let prefix = frames@.subrange(0, i as int);
                let next = frames@.subrange(0, i + 1);
                assert(next.drop_last() =~= prefix);
                assert(next.last() == frames@[i as int]);
                let tail = match deliverable(frames@[i as int]) {
                    Some(d) => seq![d],
                    None => Seq::empty(),
                };
                assert(delivered_of(next) == delivered_of(prefix) + tail);
                if deliverable(frames@[i as int]) is Some {
                    assert(after =~= before.push(after.last()));
                    assert(calls_since(start, after) =~= calls_since(start, before).push(after.last()));
                    assert(after.subrange(0, start.len() as int) =~= before.subrange(0, start.len() as int));
                    assert(log_events(calls_since(start, after)) =~= log_events(calls_since(start, before))
                        + tail);
                } else {
                    assert(after == before);
                    assert(log_events(calls_since(start, before)) =~= log_events(calls_since(start, before))
                        + tail);
                }
            }
            match step {
                Ok(()) => {},
                Err(e) => {
                    proof {
                        let after = self.handler.log();
                        let c = calls_since(start, after);
                        if deliverable(frames@[i as int]) is Some {
                            assert(c =~= calls_since(start, before).push(after.last()));
                            assert forall|k: int| 0 <= k < c.len() - 1 implies (#[trigger] c[k]).1 is Ok by {
                                assert(c[k] == calls_since(start, before)[k]);
                            }
                        }
                    }
                    return (i + 1, Err(e));
                },
            }
            proof {
                let after = self.handler.log();
                let c = calls_since(start, after);
                if deliverable(frames@[i as int]) is Some {
                    assert(c =~= calls_since(start, before).push(after.last()));
                    assert(c.last().1 is Ok);
                    assert forall|k: int| 0 <= k < c.len() implies (#[trigger] c[k]).1 is Ok by {
                        if k < c.len() - 1 {
                            assert(c[k] == calls_since(start, before)[k]);
                        }
                    }
                }
            }
            i += 1;
        }
        assert(frames@.subrange(0, i as int) =~= frames@);
        (i, Ok(()))
    }
}

} // verus!
