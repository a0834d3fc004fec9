use binance_core::frames::{classify_text, contains_slice, parse_event, EventKind, WebsocketEvent};
use binance_core::websockets::{classify_frame, Frame, FrameOutcome, StreamError};

const BOOK: &str = "{\"u\":400900217,\"s\":\"BNBUSDT\",\"b\":\"25.35\",\"B\":\"31.21\",\"a\":\"25.36\",\"A\":\"40.66\"}";

#[test]
fn book_ticker_wins_over_markers() {
    let t = "{\"e\":\"depthUpdate\",\"u\":1,\"s\":\"BNBUSDT\",\"b\":\"1\",\"B\":\"2\",\"a\":\"3\",\"A\":\"4\"}";
    assert_eq!(classify_text(t), Some(EventKind::BookTicker));
    assert_eq!(classify_text(BOOK), Some(EventKind::BookTicker));
}

#[test]
fn five_ticker_fields_are_not_enough() {
    let t = "{\"e\":\"depthUpdate\",\"u\":1,\"s\":\"BNBUSDT\",\"b\":\"1\",\"B\":\"2\",\"a\":\"3\",\"A\":null}";
    assert_eq!(classify_text(t), Some(EventKind::DepthOrderBook));
}

#[test]
fn markers_in_order() {
    assert_eq!(classify_text("{\"e\":\"outboundAccountInfo\"}"), Some(EventKind::AccountUpdate));
    assert_eq!(classify_text("{\"e\":\"executionReport\"}"), Some(EventKind::OrderTrade));
    assert_eq!(classify_text("{\"e\":\"aggTrade\"}"), Some(EventKind::Trade));
    assert_eq!(classify_text("[{\"e\":\"24hrTicker\"}]"), Some(EventKind::DayTicker));
    assert_eq!(classify_text("{\"e\":\"kline\"}"), Some(EventKind::Kline));
    assert_eq!(classify_text("{\"lastUpdateId\":1}"), Some(EventKind::OrderBook));
    assert_eq!(classify_text("{\"e\":\"depthUpdate\"}"), Some(EventKind::DepthOrderBook));
}

#[test]
fn first_marker_wins() {
    assert_eq!(
        classify_text("{\"e\":\"executionReport\",\"x\":\"outboundAccountInfo\"}"),
        Some(EventKind::AccountUpdate)
    );
    assert_eq!(classify_text("{\"e\":\"kline\",\"lastUpdateId\":1}"), Some(EventKind::Kline));
}

#[test]
fn unmatched_text_has_no_kind() {
    assert_eq!(classify_text("{\"e\":\"somethingNew\"}"), None);
    assert_eq!(classify_text(""), None);
    assert_eq!(classify_frame(&Frame::Text("{\"e\":\"somethingNew\"}".to_string())), FrameOutcome::Skip);
}

#[test]
fn control_frames_are_skipped() {
    assert_eq!(classify_frame(&Frame::Ping(vec![1])), FrameOutcome::Skip);
    assert_eq!(classify_frame(&Frame::Pong(vec![])), FrameOutcome::Skip);
    assert_eq!(classify_frame(&Frame::Binary(vec![0xff])), FrameOutcome::Skip);
}

#[test]
fn close_frame_stops_with_reason() {
    assert_eq!(
        classify_frame(&Frame::Close("going away".to_string())),
        FrameOutcome::Stop(StreamError::Closed("going away".to_string()))
    );
}

#[test]
fn text_frame_delivers_its_event() {
    assert_eq!(
        classify_frame(&Frame::Text(BOOK.to_string())),
        FrameOutcome::Deliver(WebsocketEvent::BookTicker(BOOK.to_string()))
    );
    let day = "[{\"e\":\"24hrTicker\",\"s\":\"BNBBTC\"}]";
    assert_eq!(
        classify_frame(&Frame::Text(day.to_string())),
        FrameOutcome::Deliver(WebsocketEvent::DayTicker(day.to_string()))
    );
}

#[test]
fn wrong_shape_is_a_protocol_violation() {
    assert_eq!(
        classify_frame(&Frame::Text("kline, but not JSON".to_string())),
        FrameOutcome::Stop(StreamError::ProtocolViolation(EventKind::Kline))
    );
    assert_eq!(
        classify_frame(&Frame::Text("{\"e\":\"24hrTicker\"}".to_string())),
        FrameOutcome::Stop(StreamError::ProtocolViolation(EventKind::DayTicker))
    );
    assert_eq!(parse_event(EventKind::Trade, "[\"aggTrade\"]"), None);
}

#[test]
fn substring_search() {
    assert!(contains_slice(b"abcdef", b"cde"));
    assert!(contains_slice(b"abcdef", b"abcdef"));
    assert!(contains_slice(b"abc", b""));
    assert!(!contains_slice(b"abc", b"abcd"));
    assert!(!contains_slice(b"abcabd", b"abe"));
    assert!(contains_slice(b"aab", b"ab"));
}
