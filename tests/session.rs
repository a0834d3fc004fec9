use binance_core::frames::WebsocketEvent;
use binance_core::websockets::{EventHandler, Frame, StreamError, WebSockets};

struct Recorder {
    seen: Vec<WebsocketEvent>,
    calls: usize,
    fail_on: usize,
}

impl EventHandler for Recorder {
    fn handle(&mut self, event: WebsocketEvent) -> Result<(), String> {
        self.calls += 1;
        if self.seen.len() + 1 == self.fail_on {
            return Err("handler refused".to_string());
        }
        self.seen.push(event);
        Ok(())
    }
}

fn open_session(fail_on: usize) -> WebSockets<Recorder> {
    let mut ws = WebSockets::new(Recorder { seen: Vec::new(), calls: 0, fail_on });
    ws.on_handshake(Ok(())).unwrap();
    ws
}

fn trade(n: u32) -> Frame {
    Frame::Text(format!("{{\"e\":\"aggTrade\",\"a\":{}}}", n))
}

#[test]
fn handler_failure_stops_the_loop() {
    let mut ws = open_session(2);
    let frames = vec![trade(1), trade(2), trade(3)];
    let (taken, r) = ws.run_frames(&frames);
    assert_eq!(taken, 2);
    assert_eq!(r, Err(StreamError::Handler("handler refused".to_string())));
    assert_eq!(ws.event_handler().seen, vec![WebsocketEvent::Trade("{\"e\":\"aggTrade\",\"a\":1}".to_string())]);
    assert_eq!(ws.event_handler().calls, 2);
    assert!(ws.is_connected());
}

#[test]
fn close_frame_ends_the_loop_after_events() {
    let mut ws = open_session(0);
    let frames = vec![trade(1), Frame::Close("going away".to_string()), trade(2)];
    let (taken, r) = ws.run_frames(&frames);
    assert_eq!(taken, 2);
    assert_eq!(r, Err(StreamError::Closed("going away".to_string())));
    assert_eq!(ws.event_handler().seen.len(), 1);
}

#[test]
fn unmatched_frames_are_dropped_and_the_loop_goes_on() {
    let mut ws = open_session(0);
    let frames = vec![
        Frame::Text("{\"e\":\"brandNew\"}".to_string()),
        Frame::Ping(vec![]),
        trade(7),
    ];
    let (taken, r) = ws.run_frames(&frames);
    assert_eq!(taken, 3);
    assert_eq!(r, Ok(()));
    assert_eq!(ws.event_handler().seen.len(), 1);
}

#[test]
fn protocol_violation_ends_the_loop() {
    let mut ws = open_session(0);
    let frames = vec![Frame::Text("kline but broken".to_string()), trade(1)];
    let (taken, r) = ws.run_frames(&frames);
    assert_eq!(taken, 1);
    assert!(matches!(r, Err(StreamError::ProtocolViolation(_))));
    assert!(ws.event_handler().seen.is_empty());
}

#[test]
fn closed_session_reads_nothing() {
    let mut ws = WebSockets::new(Recorder { seen: Vec::new(), calls: 0, fail_on: 0 });
    assert_eq!(ws.run_frames(&vec![trade(1)]), (0, Ok(())));
    assert!(ws.event_handler().seen.is_empty());
}

#[test]
fn handle_frame_steps() {
    let mut ws = open_session(0);
    assert_eq!(ws.handle_frame(&trade(1)), Ok(()));
    assert_eq!(ws.handle_frame(&Frame::Pong(vec![])), Ok(()));
    assert_eq!(ws.event_handler().seen.len(), 1);
}

#[test]
fn disconnect_lifecycle() {
    let mut ws = WebSockets::new(Recorder { seen: Vec::new(), calls: 0, fail_on: 0 });
    assert!(!ws.is_connected());
    assert_eq!(ws.disconnect(), Err(StreamError::NotConnected));
    assert_eq!(
        ws.on_handshake(Err("refused".to_string())),
        Err(StreamError::Handshake("refused".to_string()))
    );
    assert!(!ws.is_connected());
    assert_eq!(ws.on_handshake(Ok(())), Ok(()));
    assert!(ws.is_connected());
    assert_eq!(ws.disconnect(), Ok(()));
    assert!(!ws.is_connected());
    assert_eq!(ws.disconnect(), Err(StreamError::NotConnected));
}

#[test]
fn stream_target_is_base_plus_path() {
    assert_eq!(
        WebSockets::<Recorder>::connect_url("bnbbtc@depth"),
        Ok("wss://stream.binance.com:9443/ws/bnbbtc@depth".to_string())
    );
}
