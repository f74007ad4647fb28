use vstd::prelude::*;
use vstd::utf8::{decode_utf8, valid_utf8};
use crate::json::{json_of_text, parse_json, Json};

verus! {

/// Seconds to wait before the feed is connected to again.
pub const RECONNECT_DELAY_SECS: u64 = 3;

/// A message of the feed's socket.
#[derive(Debug, Clone, PartialEq, Eq)]
pub enum Frame {
    Text(String),
    Binary(Vec<u8>),
    Ping,
    Pong,
    Close,
    /// A read error, or a frame of another kind.
    Other,
}

/// What happened to the connection to the feed.
#[derive(Debug, Clone, Copy, PartialEq, Eq)]
pub enum FeedEvent {
    /// The socket is connected and the subscription is sent.
    Subscribed,
    /// Connecting or subscribing failed.
    ConnectFailed,
    /// The feed ended: the socket was closed or broke.
    Ended,
}

/// What the consumer of the feed does next.
#[derive(Debug, Clone, Copy, PartialEq, Eq)]
pub enum ConnectStep {
    /// The subscription stands: events are read from it.
    Stream,
    /// Connect and subscribe again after `seconds`.
    RetryAfter { seconds: u64 },
}

/// A string of a JSON document.
fn text(s: &str) -> (r: Json)
    ensures
        r.is_text(s@),
{
    Json::Str(s.to_owned())
}

/// A number of a JSON document, by its decimal text.
fn numeral(s: &str) -> (r: Json)
    ensures
        r.is_numeral(s@),
{
    Json::Number(s.to_owned())
}

/// `doc` limits notifications to transactions that mention `target`.
pub open spec fn is_filter(doc: Json, target: Seq<char>) -> bool {
    &&& doc.names() == Some(seq!["mentions"@])
    &&& doc.value_at(0).items() matches Some(accounts)
    &&& accounts.len() == 1
    &&& accounts[0].is_text(target)
}

/// `doc` asks for notifications at the earliest commitment, with the
/// whole transaction in base64 and without rewards.
pub open spec fn is_options(doc: Json) -> bool {
    &&& doc.names() == Some(
        seq![
            "commitment"@,
            "encoding"@,
            "transactionDetails"@,
            "showRewards"@,
            "maxSupportedTransactionVersion"@,
        ],
    )
    &&& doc.value_at(0).is_text("processed"@)
    &&& doc.value_at(1).is_text("base64"@)
    &&& doc.value_at(2).is_text("full"@)
    &&& doc.value_at(3) == Json::Bool(false)
    &&& doc.value_at(4).is_numeral("0"@)
}

/// `doc` is the request that subscribes to the transactions that mention
/// `target`.
pub open spec fn is_subscription(doc: Json, target: Seq<char>) -> bool {
    &&& doc.names() == Some(seq!["jsonrpc"@, "id"@, "method"@, "params"@])
    &&& doc.value_at(0).is_text("2.0"@)
    &&& doc.value_at(1).is_numeral("1"@)
    &&& doc.value_at(2).is_text("transactionSubscribe"@)
    &&& doc.value_at(3).items() matches Some(params)
    &&& params.len() == 2
    &&& is_filter(params[0], target)
    &&& is_options(params[1])
}

/// The request that subscribes to the transactions that mention `target`.
pub fn subscription_request(target: &str) -> (r: Json)
    ensures
        is_subscription(r, target@),
{
    let mut accounts: Vec<Json> = Vec::new();
    accounts.push(text(target));
    let mut filter: Vec<(String, Json)> = Vec::new();
    filter.push(("mentions".to_owned(), Json::Array(accounts)));
    let filter = Json::Object(filter);
    assert(filter.names().unwrap() =~= seq!["mentions"@]);

    let mut options: Vec<(String, Json)> = Vec::new();
    options.push(("commitment".to_owned(), text("processed")));
    options.push(("encoding".to_owned(), text("base64")));
    options.push(("transactionDetails".to_owned(), text("full")));
    options.push(("showRewards".to_owned(), Json::Bool(false)));
    options.push(("maxSupportedTransactionVersion".to_owned(), numeral("0")));
    let options = Json::Object(options);
    assert(options.names().unwrap() =~= seq![
        "commitment"@,
        "encoding"@,
        "transactionDetails"@,
        "showRewards"@,
        "maxSupportedTransactionVersion"@,
    ]);

    let mut params: Vec<Json> = Vec::new();
    params.push(filter);
    params.push(options);

    let mut request: Vec<(String, Json)> = Vec::new();
    request.push(("jsonrpc".to_owned(), text("2.0")));
    request.push(("id".to_owned(), numeral("1")));
    request.push(("method".to_owned(), text("transactionSubscribe")));
    request.push(("params".to_owned(), Json::Array(params)));
    let request = Json::Object(request);
    assert(request.names().unwrap() =~= seq!["jsonrpc"@, "id"@, "method"@, "params"@]);
    request
}

/// Converts bytes to text.
///
/// Calls `String::from_utf8` of the standard library, which yields the
/// text exactly when the bytes are valid UTF-8.
#[verifier::external_body]
pub(crate) fn utf8_text(bytes: Vec<u8>) -> (r: Option<String>)
    ensures
        match r {
            Some(s) => valid_utf8(bytes@) && s@ == decode_utf8(bytes@),
            None => !valid_utf8(bytes@),
        },
{
    String::from_utf8(bytes).ok()
}

/// The event that a frame carries: the document of a text frame, or of a
/// binary frame that holds text, where that is JSON. Every other frame
/// carries none.
pub open spec fn frame_event(frame: Frame) -> Option<Json> {
    match frame {
        Frame::Text(t) => json_of_text(t@),
        Frame::Binary(bytes) => if valid_utf8(bytes@) {
            json_of_text(decode_utf8(bytes@))
        } else {
            None
        },
        _ => None,
    }
}

/// Reads the event that a frame carries, if it carries one.
pub fn decode_frame(frame: Frame) -> (r: Option<Json>)
    ensures
        r == frame_event(frame),
{
    match frame {
        Frame::Text(t) => parse_json(t.as_str()),
        Frame::Binary(bytes) => match utf8_text(bytes) {
            Some(t) => parse_json(t.as_str()),
            None => None,
        },
        _ => None,
    }
}

/// The URL that the text `s` denotes, written out in full, if `s` is an
/// absolute URL.
pub uninterp spec fn url_of_text(s: Seq<char>) -> Option<Seq<char>>;

/// Parses a URL.
///
/// Calls `Url::parse` of `url`; the contract gives the text of the URL
/// that comes back the name `url_of_text`, and `None` where the parser
/// reports an error.
#[verifier::external_body]
pub(crate) fn parse_url(s: &str) -> (r: Option<String>)
    ensures
        match r {
            Some(u) => url_of_text(s@) == Some(u@),
            None => url_of_text(s@) is None,
        },
{
    match url::Url::parse(s) {
        Ok(u) => Some(String::from(u)),
        Err(_) => None,
    }
}

/// The address to connect to for the feed at `ws_endpoint`. An endpoint
/// that is no URL counts as a failed attempt to connect.
pub fn feed_address(ws_endpoint: &str) -> (r: Result<String, FeedEvent>)
    ensures
        match r {
            Ok(u) => url_of_text(ws_endpoint@) == Some(u@),
            Err(e) => url_of_text(ws_endpoint@) is None && e == FeedEvent::ConnectFailed,
        },
{
    match parse_url(ws_endpoint) {
        Some(u) => Ok(u),
        None => Err(FeedEvent::ConnectFailed),
    }
}

/// Decides what the consumer of the feed does next: whenever the feed
/// cannot be had or ends, it is connected to again after a fixed delay,
/// however often that has happened before.
pub fn next_step(event: FeedEvent) -> (r: ConnectStep)
    ensures
        r == match event {
            FeedEvent::Subscribed => ConnectStep::Stream,
            FeedEvent::ConnectFailed => ConnectStep::RetryAfter { seconds: RECONNECT_DELAY_SECS },
            FeedEvent::Ended => ConnectStep::RetryAfter { seconds: RECONNECT_DELAY_SECS },
        },
{
    match event {
        FeedEvent::Subscribed => ConnectStep::Stream,
        _ => ConnectStep::RetryAfter { seconds: RECONNECT_DELAY_SECS },
    }
}

} // verus!
