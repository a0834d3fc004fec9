use vstd::prelude::*;
use vstd::utf8::encode_utf8;

verus! {

/// Marker of an account update.
pub const OUTBOUND_ACCOUNT_INFO: &'static str = "outboundAccountInfo";
/// Marker of an order update.
pub const EXECUTION_REPORT: &'static str = "executionReport";
/// Marker of a kline.
pub const KLINE: &'static str = "kline";
/// Marker of an aggregated trade.
pub const AGGREGATED_TRADE: &'static str = "aggTrade";
/// Marker of a depth-diff update.
pub const DEPTH_ORDERBOOK: &'static str = "depthUpdate";
/// Marker of an order-book snapshot.
pub const PARTIAL_ORDERBOOK: &'static str = "lastUpdateId";
/// Marker of a day-ticker batch.
pub const DAYTICKER: &'static str = "24hrTicker";

/// Fields that together mark a best-bid/ask ticker: update id, symbol, best
/// bid price and quantity, best ask price and quantity.
pub const BOOK_UPDATE_ID: &'static str = "u";
pub const BOOK_SYMBOL: &'static str = "s";
pub const BOOK_BID_PRICE: &'static str = "b";
pub const BOOK_BID_QTY: &'static str = "B";
pub const BOOK_ASK_PRICE: &'static str = "a";
pub const BOOK_ASK_QTY: &'static str = "A";

/// Kinds of inbound events.
#[derive(PartialEq, Eq, Structural, Clone, Copy, Debug)]
pub enum EventKind {
    AccountUpdate,
    OrderTrade,
    Trade,
    OrderBook,
    DayTicker,
    Kline,
    DepthOrderBook,
    BookTicker,
}

/// An inbound event, carrying its JSON text, which has been checked to be of
/// the shape the kind promises (an array for a day-ticker batch, an object
/// for every other kind).
#[derive(Clone, Debug, PartialEq, Eq)]
pub enum WebsocketEvent {
    AccountUpdate(String),
    OrderTrade(String),
    Trade(String),
    OrderBook(String),
    DayTicker(String),
    Kline(String),
    DepthOrderBook(String),
    BookTicker(String),
}

/// Top-level shape of a JSON text.
#[derive(PartialEq, Eq, Structural, Clone, Copy, Debug)]
pub enum JsonShape {
    Object,
    Array,
    OtherValue,
    NotJson,
}

/// Whether `text` is JSON whose top-level field `key` is present and not null.
pub uninterp spec fn json_field_non_null(text: Seq<char>, key: Seq<char>) -> bool;

/// The top-level shape of `text` read as JSON.
pub uninterp spec fn json_shape_of(text: Seq<char>) -> JsonShape;

/// Relies on serde_json::from_str into serde_json::Value and on indexing the
/// value by a key, which gives null for a missing field and for a value that
/// is not an object: whether the field is there and not null.
#[verifier::external_body]
fn json_field_present(text: &str, key: &str) -> (r: bool)
    ensures
        r == json_field_non_null(text@, key@),
{
    match serde_json::from_str::<serde_json::Value>(text) {
        Ok(v) => !v[key].is_null(),
        Err(_) => false,
    }
}

/// Relies on serde_json::from_str into serde_json::Value: whether the text
/// is JSON, and of which top-level shape.
#[verifier::external_body]
fn json_shape(text: &str) -> (r: JsonShape)
    ensures
        r == json_shape_of(text@),
{
    match serde_json::from_str::<serde_json::Value>(text) {
        Ok(serde_json::Value::Object(_)) => JsonShape::Object,
        Ok(serde_json::Value::Array(_)) => JsonShape::Array,
        Ok(_) => JsonShape::OtherValue,
        Err(_) => JsonShape::NotJson,
    }
}

pub open spec fn occurs_at(hay: Seq<u8>, needle: Seq<u8>, i: int) -> bool {
    0 <= i && i + needle.len() <= hay.len() && hay.subrange(i, i + needle.len()) == needle
}

/// Whether `needle` occurs in `hay` as a contiguous run.
pub open spec fn contains_bytes(hay: Seq<u8>, needle: Seq<u8>) -> bool {
    exists|i: int| #[trigger] occurs_at(hay, needle, i)
}

/// Whether the UTF-8 text of `marker` occurs in that of `text`.
pub open spec fn has_marker(text: Seq<char>, marker: Seq<char>) -> bool {
    contains_bytes(encode_utf8(text), encode_utf8(marker))
}

/// Whether `needle` occurs in `hay`.
pub fn contains_slice(hay: &[u8], needle: &[u8]) -> (r: bool)
    ensures
        r == contains_bytes(hay@, needle@),
{
    let n = needle.len();
    if n > hay.len() {
        assert forall|j: int| !occurs_at(hay@, needle@, j) by {}
        return false;
    }
    if n == 0 {
        assert(hay@.subrange(0, 0) =~= needle@);
        assert(occurs_at(hay@, needle@, 0));
        return true;
    }
    let last = hay.len() - n;
    let mut i: usize = 0;
    while i <= last
        invariant
            i <= last + 1,
            last + n == hay@.len(),
            hay@.len() <= usize::MAX,
            n >= 1,
            n == needle@.len(),
            forall|j: int| 0 <= j < i ==> !occurs_at(hay@, needle@, j),
        decreases last + 1 - i,
    {
        let mut k: usize = 0;
        let mut same = true;
        while k < n
            invariant
                k <= n,
                i <= last,
                last + n == hay@.len(),
                hay@.len() <= usize::MAX,
                n == needle@.len(),
                same == (forall|m: int| 0 <= m < k ==> hay@[i + m] == needle@[m]),
            decreases n - k,
        {
            if hay[i + k] != needle[k] {
                same = false;
            }
            k += 1;
        }
        if same {
            assert(hay@.subrange(i as int, i + n) =~= needle@);
            assert(occurs_at(hay@, needle@, i as int));
            return true;
        }
        assert(!occurs_at(hay@, needle@, i as int)) by {
            if occurs_at(hay@, needle@, i as int) {
                assert forall|m: int| 0 <= m < n implies hay@[i + m] == needle@[m] by {
                    assert(hay@.subrange(i as int, i + n)[m] == hay@[i + m]);
                }
            }
        }
        i += 1;
    }
    assert forall|j: int| !occurs_at(hay@, needle@, j) by {
        if 0 <= j < i {
        }
    }
    false
}

fn has_marker_in(text: &str, marker: &str) -> (r: bool)
    ensures
        r == has_marker(text@, marker@),
{
    contains_slice(text.as_bytes(), marker.as_bytes())
}

/// Whether the text carries all six fields of a best-bid/ask ticker.
pub open spec fn book_ticker_fields(t: Seq<char>) -> bool {
    json_field_non_null(t, BOOK_UPDATE_ID@) && json_field_non_null(t, BOOK_SYMBOL@)
        && json_field_non_null(t, BOOK_BID_PRICE@) && json_field_non_null(t, BOOK_BID_QTY@)
        && json_field_non_null(t, BOOK_ASK_PRICE@) && json_field_non_null(t, BOOK_ASK_QTY@)
}

/// The kind a text frame is classified as: the ticker fields first, then the
/// markers in a fixed order, the first hit winning; none where nothing matches.
pub open spec fn text_kind(t: Seq<char>) -> Option<EventKind> {
    if book_ticker_fields(t) {
        Some(EventKind::BookTicker)
    } else if has_marker(t, OUTBOUND_ACCOUNT_INFO@) {
        Some(EventKind::AccountUpdate)
    } else if has_marker(t, EXECUTION_REPORT@) {
        Some(EventKind::OrderTrade)
    } else if has_marker(t, AGGREGATED_TRADE@) {
        Some(EventKind::Trade)
    } else if has_marker(t, DAYTICKER@) {
        Some(EventKind::DayTicker)
    } else if has_marker(t, KLINE@) {
        Some(EventKind::Kline)
    } else if has_marker(t, PARTIAL_ORDERBOOK@) {
        Some(EventKind::OrderBook)
    } else if has_marker(t, DEPTH_ORDERBOOK@) {
        Some(EventKind::DepthOrderBook)
    } else {
        None
    }
}

/// The shape the payload of each kind must have.
pub open spec fn expected_shape(k: EventKind) -> JsonShape {
    if k == EventKind::DayTicker {
        JsonShape::Array
    } else {
        JsonShape::Object
    }
}

pub open spec fn event_kind(ev: WebsocketEvent) -> EventKind {
    match ev {
        WebsocketEvent::AccountUpdate(_) => EventKind::AccountUpdate,
        WebsocketEvent::OrderTrade(_) => EventKind::OrderTrade,
        WebsocketEvent::Trade(_) => EventKind::Trade,
        WebsocketEvent::OrderBook(_) => EventKind::OrderBook,
        WebsocketEvent::DayTicker(_) => EventKind::DayTicker,
        WebsocketEvent::Kline(_) => EventKind::Kline,
        WebsocketEvent::DepthOrderBook(_) => EventKind::DepthOrderBook,
        WebsocketEvent::BookTicker(_) => EventKind::BookTicker,
    }
}

pub open spec fn event_payload(ev: WebsocketEvent) -> Seq<char> {
    match ev {
        WebsocketEvent::AccountUpdate(s) => s@,
        WebsocketEvent::OrderTrade(s) => s@,
        WebsocketEvent::Trade(s) => s@,
        WebsocketEvent::OrderBook(s) => s@,
        WebsocketEvent::DayTicker(s) => s@,
        WebsocketEvent::Kline(s) => s@,
        WebsocketEvent::DepthOrderBook(s) => s@,
        WebsocketEvent::BookTicker(s) => s@,
    }
}

/// Classifies the text of a frame.
pub fn classify_text(text: &str) -> (r: Option<EventKind>)
    ensures
        r == text_kind(text@),
{
    if json_field_present(text, BOOK_UPDATE_ID) && json_field_present(text, BOOK_SYMBOL)
        && json_field_present(text, BOOK_BID_PRICE) && json_field_present(text, BOOK_BID_QTY)
        && json_field_present(text, BOOK_ASK_PRICE) && json_field_present(text, BOOK_ASK_QTY) {
        Some(EventKind::BookTicker)
    } else if has_marker_in(text, OUTBOUND_ACCOUNT_INFO) {
        Some(EventKind::AccountUpdate)
    } else if has_marker_in(text, EXECUTION_REPORT) {
        Some(EventKind::OrderTrade)
    } else if has_marker_in(text, AGGREGATED_TRADE) {
        Some(EventKind::Trade)
    } else if has_marker_in(text, DAYTICKER) {
        Some(EventKind::DayTicker)
    } else if has_marker_in(text, KLINE) {
        Some(EventKind::Kline)
    } else if has_marker_in(text, PARTIAL_ORDERBOOK) {
        Some(EventKind::OrderBook)
    } else if has_marker_in(text, DEPTH_ORDERBOOK) {
        Some(EventKind::DepthOrderBook)
    } else {
        None
    }
}

/// Builds the event of kind `k`, once its payload has the shape `k`
/// promises; none where it has not.
pub fn parse_event(k: EventKind, text: &str) -> (r: Option<WebsocketEvent>)
    ensures
        r is Some <==> json_shape_of(text@) == expected_shape(k),
        r matches Some(ev) ==> event_kind(ev) == k && event_payload(ev) == text@,
{
    let shape = json_shape(text);
    let wanted = if k == EventKind::DayTicker {
        JsonShape::Array
    } else {
        JsonShape::Object
    };
    if shape != wanted {
        return None;
    }
    let s = String::from_str(text);
    Some(
        match k {
            EventKind::AccountUpdate => WebsocketEvent::AccountUpdate(s),
            EventKind::OrderTrade => WebsocketEvent::OrderTrade(s),
            EventKind::Trade => WebsocketEvent::Trade(s),
            EventKind::OrderBook => WebsocketEvent::OrderBook(s),
            EventKind::DayTicker => WebsocketEvent::DayTicker(s),
            EventKind::Kline => WebsocketEvent::Kline(s),
            EventKind::DepthOrderBook => WebsocketEvent::DepthOrderBook(s),
            EventKind::BookTicker => WebsocketEvent::BookTicker(s),
        },
    )
}

/// A frame that carries all six ticker fields is a best-bid/ask ticker,
/// whatever marker of another kind its text also holds.
pub proof fn lemma_book_ticker_first(t: Seq<char>)
    requires
        book_ticker_fields(t),
    ensures
        text_kind(t) == Some(EventKind::BookTicker),
{
}

/// A text with none of the ticker fields' full set and none of the markers
/// is of no kind.
pub proof fn lemma_unmatched_text(t: Seq<char>)
    requires
        !book_ticker_fields(t),
        !has_marker(t, OUTBOUND_ACCOUNT_INFO@),
        !has_marker(t, EXECUTION_REPORT@),
        !has_marker(t, AGGREGATED_TRADE@),
        !has_marker(t, DAYTICKER@),
        !has_marker(t, KLINE@),
        !has_marker(t, PARTIAL_ORDERBOOK@),
        !has_marker(t, DEPTH_ORDERBOOK@),
    ensures
        text_kind(t) is None,
{
}

} // verus!
