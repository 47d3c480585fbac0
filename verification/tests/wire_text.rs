use rmcp_actix_web::auth::extract_bearer;
use rmcp_actix_web::encoder::{
    encode_endpoint_event, encode_event, encode_legacy_message, keep_alive_frame,
    legacy_keep_alive_frame,
};
use rmcp_actix_web::message::Incoming;
use rmcp_actix_web::queue::{BoundedQueue, PopOutcome, PushOutcome};
use rmcp_actix_web::store::RecvOutcome;
use rmcp_actix_web::streamable::{PostOutcome, StreamableHttpServerConfig, StreamableHttpTransport};
use rmcp_actix_web::text::{parse_u64, render_u64};

#[test]
fn event_frame_exact_bytes() {
    assert_eq!(encode_event("{\"a\":1}", None), "data: {\"a\":1}\n\n");
    assert_eq!(encode_event("{\"a\":1}", Some(7)), "id: 7\ndata: {\"a\":1}\n\n");
    assert_eq!(encode_event("", Some(10)), "id: 10\ndata: \n\n");
}

#[test]
fn keep_alive_frames_exact_and_distinct() {
    assert_eq!(keep_alive_frame(), ":ping\n\n");
    assert_eq!(legacy_keep_alive_frame(), ": ping\n\n");
    assert_ne!(keep_alive_frame(), encode_event("", None));
    assert_ne!(legacy_keep_alive_frame(), encode_legacy_message(""));
}

#[test]
fn legacy_frames_exact_bytes() {
    assert_eq!(
        encode_legacy_message("{\"jsonrpc\":\"2.0\"}"),
        "event: message\ndata: {\"jsonrpc\":\"2.0\"}\n\n"
    );
    assert_eq!(
        encode_endpoint_event("/message", 3),
        "event: endpoint\ndata: /message?sessionId=3\n\n"
    );
}

#[test]
fn decimal_rendering_exact() {
    assert_eq!(render_u64(0), "0");
    assert_eq!(render_u64(10), "10");
    assert_eq!(render_u64(u64::MAX), "18446744073709551615");
}

#[test]
fn decimal_parsing_is_strict() {
    assert_eq!(parse_u64("0"), Some(0));
    assert_eq!(parse_u64("42"), Some(42));
    assert_eq!(parse_u64("18446744073709551615"), Some(u64::MAX));
    assert_eq!(parse_u64("18446744073709551616"), None);
    assert_eq!(parse_u64(""), None);
    assert_eq!(parse_u64("007"), None);
    assert_eq!(parse_u64("12a"), None);
    assert_eq!(parse_u64("-1"), None);
}

#[test]
fn render_parse_round_trip() {
    for n in [0u64, 1, 9, 10, 63, 64, 12345678901234567, u64::MAX] {
        assert_eq!(parse_u64(render_u64(n).as_str()), Some(n));
    }
}

#[test]
fn bearer_extraction_rule() {
    assert_eq!(extract_bearer(Some("Bearer abc")).map(|a| a.0), Some("abc".to_string()));
    assert_eq!(
        extract_bearer(Some("Bearer test-token-abc123")).map(|a| a.0),
        Some("test-token-abc123".to_string())
    );
    assert!(extract_bearer(Some("Basic dXNlcjpwYXNz")).is_none());
    assert!(extract_bearer(Some("Bearer")).is_none());
    assert!(extract_bearer(Some("Bearer ")).is_none());
    assert!(extract_bearer(Some("bearer abc")).is_none());
    assert!(extract_bearer(None).is_none());
}

#[test]
fn queue_is_fifo_and_bounded() {
    let mut q: BoundedQueue<u64> = BoundedQueue::new(2);
    assert!(matches!(q.push(1), PushOutcome::Pushed));
    assert!(matches!(q.push(2), PushOutcome::Pushed));
    match q.push(3) {
        PushOutcome::Full(v) => assert_eq!(v, 3),
        _ => panic!("a full queue must hand the item back"),
    }
    assert!(matches!(q.pop(), PopOutcome::Item(1)));
    assert!(matches!(q.pop(), PopOutcome::Item(2)));
    assert!(matches!(q.pop(), PopOutcome::Empty));
    q.close();
    match q.push(4) {
        PushOutcome::Refused(v) => assert_eq!(v, 4),
        _ => panic!("a closed queue must refuse the item"),
    }
    assert!(matches!(q.pop(), PopOutcome::Done));
}

#[test]
fn queue_drains_after_close() {
    let mut q: BoundedQueue<u64> = BoundedQueue::new(4);
    assert!(matches!(q.push(1), PushOutcome::Pushed));
    q.close();
    assert!(matches!(q.pop(), PopOutcome::Item(1)));
    assert!(matches!(q.pop(), PopOutcome::Done));
}

#[test]
fn inbound_message_round_trips_json_verbatim() {
    let original = "{\"jsonrpc\":\"2.0\",\"method\":\"tools/call\",\"id\":1,\"params\":{\"name\":\"echo\"}}";
    let value: serde_json::Value = serde_json::from_str(original).expect("valid JSON");
    let mut t: StreamableHttpTransport<serde_json::Value> =
        StreamableHttpTransport::new(StreamableHttpServerConfig::default());
    let sid = match t.handle_post(
        Some("application/json, text/event-stream"),
        Some("application/json"),
        None,
        None,
        Some(Incoming::Request {
            initialize: true,
            payload: value.clone(),
        }),
    ) {
        PostOutcome::Initialized { session_id, .. } => session_id,
        _ => panic!("session expected"),
    };
    let header = render_u64(sid);
    let r = t.handle_post(
        Some("application/json, text/event-stream"),
        Some("application/json"),
        Some(header.as_str()),
        None,
        Some(Incoming::Request {
            initialize: false,
            payload: value.clone(),
        }),
    );
    assert!(matches!(r, PostOutcome::RequestStream { .. }));
    let observed = match t.sessions.pop_inbound(sid) {
        RecvOutcome::Item(sub) => match sub.message {
            Incoming::Request { payload, .. } => payload,
            _ => panic!("request expected"),
        },
        _ => panic!("the backend loop should observe the message"),
    };
    let encoded = serde_json::to_string(&observed).expect("serializable");
    let reparsed: serde_json::Value = serde_json::from_str(&encoded).expect("valid JSON");
    assert_eq!(reparsed, value);
}
