use ammalgram_assistant::json::Json;
use ammalgram_assistant::stream::{
    decode_frame, feed_address, next_step, subscription_request, ConnectStep, FeedEvent, Frame,
    RECONNECT_DELAY_SECS,
};

fn text(s: &str) -> Json {
    Json::Str(s.to_string())
}

fn number(s: &str) -> Json {
    Json::Number(s.to_string())
}

fn member(name: &str, value: Json) -> (String, Json) {
    (name.to_string(), value)
}

#[test]
fn the_subscription_asks_for_transactions_that_mention_the_target() {
    let expected = Json::Object(vec![
        member("jsonrpc", text("2.0")),
        member("id", number("1")),
        member("method", text("transactionSubscribe")),
        member(
            "params",
            Json::Array(vec![
                Json::Object(vec![member("mentions", Json::Array(vec![text("TargetAccount")]))]),
                Json::Object(vec![
                    member("commitment", text("processed")),
                    member("encoding", text("base64")),
                    member("transactionDetails", text("full")),
                    member("showRewards", Json::Bool(false)),
                    member("maxSupportedTransactionVersion", number("0")),
                ]),
            ]),
        ),
    ]);
    assert_eq!(subscription_request("TargetAccount"), expected);
}

#[test]
fn the_subscription_is_written_as_json() {
    let written = subscription_request("Target\"Account").to_text().unwrap();
    let read = serde_json::from_str::<serde_json::Value>(&written).unwrap();
    assert_eq!(read.pointer("/jsonrpc").and_then(|v| v.as_str()), Some("2.0"));
    assert_eq!(read.pointer("/id").and_then(|v| v.as_u64()), Some(1));
    assert_eq!(read.pointer("/method").and_then(|v| v.as_str()), Some("transactionSubscribe"));
    assert_eq!(read.pointer("/params/0/mentions/0").and_then(|v| v.as_str()), Some("Target\"Account"));
    assert_eq!(read.pointer("/params/0").and_then(|v| v.as_object()).map(|m| m.len()), Some(1));
    assert_eq!(read.pointer("/params/1/commitment").and_then(|v| v.as_str()), Some("processed"));
    assert_eq!(read.pointer("/params/1/encoding").and_then(|v| v.as_str()), Some("base64"));
    assert_eq!(read.pointer("/params/1/transactionDetails").and_then(|v| v.as_str()), Some("full"));
    assert_eq!(read.pointer("/params/1/showRewards").and_then(|v| v.as_bool()), Some(false));
    assert_eq!(
        read.pointer("/params/1/maxSupportedTransactionVersion").and_then(|v| v.as_u64()),
        Some(0)
    );
    assert_eq!(read.pointer("/params").and_then(|v| v.as_array()).map(|a| a.len()), Some(2));
    assert_eq!(read.as_object().map(|m| m.len()), Some(4));
}

#[test]
fn documents_are_written_and_read_back() {
    let doc = Json::Object(vec![
        member("a", Json::Null),
        member("b", Json::Bool(true)),
        member("c", number("-12.5")),
        member("d", text("x\ny")),
        member("e", Json::Array(vec![number("1"), Json::Array(vec![]), Json::Object(vec![])])),
    ]);
    let written = doc.to_text().unwrap();
    assert_eq!(written, "{\"a\":null,\"b\":true,\"c\":-12.5,\"d\":\"x\\ny\",\"e\":[1,[],{}]}");
    assert_eq!(decode_frame(Frame::Text(written)), Some(doc));
    assert_eq!(number("1e-7").to_text().as_deref(), Some("1e-7"));
    assert_eq!(number("not a number").to_text(), None);
    assert_eq!(Json::Array(vec![number("1"), number("")]).to_text(), None);
}

#[test]
fn text_frames_carry_json() {
    assert_eq!(
        decode_frame(Frame::Text("{\"a\":[1,2.5,\"x\",null,true]}".to_string())),
        Some(Json::Object(vec![member(
            "a",
            Json::Array(vec![number("1"), number("2.5"), text("x"), Json::Null, Json::Bool(true)])
        )]))
    );
    assert_eq!(decode_frame(Frame::Text(" 7 ".to_string())), Some(number("7")));
    assert_eq!(decode_frame(Frame::Text("1e-7".to_string())), Some(number("1e-7")));
}

#[test]
fn frames_that_hold_no_json_are_dropped() {
    assert_eq!(decode_frame(Frame::Text("hello".to_string())), None);
    assert_eq!(decode_frame(Frame::Text("".to_string())), None);
    assert_eq!(decode_frame(Frame::Text("{\"a\":".to_string())), None);
    assert_eq!(decode_frame(Frame::Binary(vec![0xff, 0xfe])), None);
    assert_eq!(decode_frame(Frame::Binary(b"not json".to_vec())), None);
}

#[test]
fn binary_frames_that_hold_text_carry_json() {
    assert_eq!(
        decode_frame(Frame::Binary("{\"k\":\"é\"}".as_bytes().to_vec())),
        Some(Json::Object(vec![member("k", text("é"))]))
    );
}

#[test]
fn control_frames_carry_nothing() {
    for frame in [Frame::Ping, Frame::Pong, Frame::Close, Frame::Other] {
        assert_eq!(decode_frame(frame), None);
    }
}

#[test]
fn a_failed_attempt_is_repeated_after_three_seconds() {
    assert_eq!(RECONNECT_DELAY_SECS, 3);
    assert_eq!(next_step(FeedEvent::Subscribed), ConnectStep::Stream);
    for _ in 0..1000 {
        assert_eq!(next_step(FeedEvent::ConnectFailed), ConnectStep::RetryAfter { seconds: 3 });
    }
}

#[test]
fn a_feed_that_ended_is_connected_to_again() {
    assert_eq!(next_step(FeedEvent::Ended), ConnectStep::RetryAfter { seconds: 3 });
    assert_eq!(next_step(FeedEvent::Subscribed), ConnectStep::Stream);
    assert_eq!(next_step(FeedEvent::Ended), ConnectStep::RetryAfter { seconds: 3 });
}

#[test]
fn the_endpoint_of_the_feed_must_be_a_url() {
    assert_eq!(
        feed_address("wss://feed.example/?api-key=abc"),
        Ok("wss://feed.example/?api-key=abc".to_string())
    );
    assert_eq!(feed_address("wss://FEED.example"), Ok("wss://feed.example/".to_string()));
    assert_eq!(feed_address("ws://127.0.0.1:8900"), Ok("ws://127.0.0.1:8900/".to_string()));
    for text in ["", "not a url", "feed.example", "/relative/path", "wss://"] {
        assert_eq!(feed_address(text), Err(FeedEvent::ConnectFailed), "{text:?}");
    }
}
