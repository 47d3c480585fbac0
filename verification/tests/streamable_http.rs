use rmcp_actix_web::message::Incoming;
use rmcp_actix_web::store::{Envelope, RecvOutcome, SendOutcome, Submission};
use rmcp_actix_web::streamable::{
    DeleteOutcome, GetOutcome, PostOutcome, StreamableHttpServerConfig, StreamableHttpTransport,
};
use rmcp_actix_web::text::render_u64;

const ACCEPT_BOTH: &str = "application/json, text/event-stream";
const JSON_CT: &str = "application/json";

fn stateful() -> StreamableHttpTransport<String> {
    StreamableHttpTransport::new(StreamableHttpServerConfig::default())
}

fn stateless() -> StreamableHttpTransport<String> {
    StreamableHttpTransport::new(StreamableHttpServerConfig {
        stateful_mode: false,
        sse_keep_alive: Some(100),
    })
}

fn init_request(payload: &str) -> Incoming<String> {
    Incoming::Request {
        initialize: true,
        payload: payload.to_string(),
    }
}

fn request(payload: &str) -> Incoming<String> {
    Incoming::Request {
        initialize: false,
        payload: payload.to_string(),
    }
}

fn notification(payload: &str) -> Incoming<String> {
    Incoming::Notification {
        payload: payload.to_string(),
    }
}

fn open_session(t: &mut StreamableHttpTransport<String>) -> u64 {
    match t.handle_post(
        Some(ACCEPT_BOTH),
        Some(JSON_CT),
        None,
        None,
        Some(init_request("initialize")),
    ) {
        PostOutcome::Initialized { session_id, .. } => session_id,
        _ => panic!("expected a session to be created"),
    }
}

#[test]
fn initialize_creates_retrievable_session() {
    let mut t = stateful();
    let sid = open_session(&mut t);
    assert!(t.sessions.has_session(sid));
}

#[test]
fn initialize_returns_distinct_session_ids() {
    let mut t = stateful();
    let a = open_session(&mut t);
    let b = open_session(&mut t);
    assert_ne!(a, b);
    assert!(t.sessions.has_session(a));
    assert!(t.sessions.has_session(b));
}

#[test]
fn post_without_accept_header_not_acceptable() {
    let mut t = stateful();
    let r = t.handle_post(None, Some(JSON_CT), None, None, Some(init_request("x")));
    assert!(matches!(r, PostOutcome::NotAcceptable));
}

#[test]
fn post_accept_missing_event_stream_not_acceptable() {
    let mut t = stateful();
    let r = t.handle_post(
        Some("application/json"),
        Some(JSON_CT),
        None,
        None,
        Some(init_request("x")),
    );
    assert!(matches!(r, PostOutcome::NotAcceptable));
}

#[test]
fn post_wrong_content_type_unsupported_media() {
    let mut t = stateful();
    let r = t.handle_post(
        Some(ACCEPT_BOTH),
        Some("text/plain"),
        None,
        None,
        Some(init_request("x")),
    );
    assert!(matches!(r, PostOutcome::UnsupportedMediaType));
}

#[test]
fn post_undecodable_body_bad_request() {
    let mut t = stateful();
    let r = t.handle_post(Some(ACCEPT_BOTH), Some(JSON_CT), None, None, None);
    assert!(matches!(r, PostOutcome::BadRequest));
}

#[test]
fn first_contact_must_be_initialize() {
    let mut t = stateful();
    let r = t.handle_post(
        Some(ACCEPT_BOTH),
        Some(JSON_CT),
        None,
        None,
        Some(request("tools/list")),
    );
    assert!(matches!(r, PostOutcome::ExpectedInitialize));
}

#[test]
fn unknown_session_operations_never_succeed() {
    let mut t = stateful();
    let r = t.handle_post(
        Some(ACCEPT_BOTH),
        Some(JSON_CT),
        Some("42"),
        None,
        Some(request("tools/list")),
    );
    assert!(matches!(r, PostOutcome::SessionNotFound));
    let g = t.handle_get(Some("text/event-stream"), Some("42"), None);
    assert!(matches!(g, GetOutcome::SessionNotFound));
    let d = t.handle_delete(Some("42"));
    assert!(matches!(d, DeleteOutcome::SessionNotFound));
    let r2 = t.handle_post(
        Some(ACCEPT_BOTH),
        Some(JSON_CT),
        Some("not-a-token"),
        None,
        Some(request("tools/list")),
    );
    assert!(matches!(r2, PostOutcome::SessionNotFound));
}

#[test]
fn get_without_session_header_unauthorized() {
    let t = stateful();
    let g = t.handle_get(Some("text/event-stream"), None, None);
    assert!(matches!(g, GetOutcome::MissingSession));
}

#[test]
fn get_requires_event_stream_accept() {
    let t = stateful();
    let g = t.handle_get(Some("application/json"), Some("0"), None);
    assert!(matches!(g, GetOutcome::NotAcceptable));
}

#[test]
fn delete_without_session_header_unauthorized() {
    let mut t = stateful();
    let d = t.handle_delete(None);
    assert!(matches!(d, DeleteOutcome::MissingSession));
}

#[test]
fn delete_twice_success_then_not_found() {
    let mut t = stateful();
    let sid = open_session(&mut t);
    let header = render_u64(sid);
    let d1 = t.handle_delete(Some(header.as_str()));
    assert!(matches!(d1, DeleteOutcome::Closed));
    let d2 = t.handle_delete(Some(header.as_str()));
    assert!(matches!(d2, DeleteOutcome::SessionNotFound));
}

#[test]
fn request_stream_enqueues_for_backend() {
    let mut t = stateful();
    let sid = open_session(&mut t);
    let header = render_u64(sid);
    let r = t.handle_post(
        Some(ACCEPT_BOTH),
        Some(JSON_CT),
        Some(header.as_str()),
        None,
        Some(request("tools/call")),
    );
    assert!(matches!(r, PostOutcome::RequestStream { session_id } if session_id == sid));
    match t.sessions.pop_inbound(sid) {
        RecvOutcome::Item(Submission { message, credential }) => {
            assert!(matches!(message, Incoming::Request { initialize: false, payload } if payload == "tools/call"));
            assert!(credential.is_none());
        }
        _ => panic!("the submitted request should be queued for the backend"),
    }
}

#[test]
fn notification_acknowledged_without_stream() {
    let mut t = stateful();
    let sid = open_session(&mut t);
    let header = render_u64(sid);
    let r = t.handle_post(
        Some(ACCEPT_BOTH),
        Some(JSON_CT),
        Some(header.as_str()),
        None,
        Some(notification("notifications/initialized")),
    );
    assert!(matches!(r, PostOutcome::Accepted));
}

#[test]
fn stateless_serves_requests_without_sessions() {
    let mut t = stateless();
    let r = t.handle_post(
        Some(ACCEPT_BOTH),
        Some(JSON_CT),
        None,
        None,
        Some(request("tools/list")),
    );
    match r {
        PostOutcome::Stateless { message, credential } => {
            assert!(matches!(message, Incoming::Request { payload, .. } if payload == "tools/list"));
            assert!(credential.is_none());
        }
        _ => panic!("stateless mode should serve the request directly"),
    }
    assert!(!t.sessions.has_session(0));
}

#[test]
fn stateless_rejects_non_requests() {
    let mut t = stateless();
    let r = t.handle_post(
        Some(ACCEPT_BOTH),
        Some(JSON_CT),
        None,
        None,
        Some(notification("n")),
    );
    assert!(matches!(r, PostOutcome::UnexpectedMessage));
}

#[test]
fn outbound_events_delivered_in_publish_order() {
    let mut t = stateful();
    let sid = open_session(&mut t);
    for k in 0..5u64 {
        let msg = format!("event-{}", k);
        assert!(matches!(
            t.sessions.push_outbound(sid, msg),
            SendOutcome::Sent
        ));
    }
    for k in 0..5u64 {
        match t.next_outbound(sid, None) {
            RecvOutcome::Item(Envelope {
                message,
                resumption_id,
            }) => {
                assert_eq!(message, format!("event-{}", k));
                assert_eq!(resumption_id, Some(k));
            }
            _ => panic!("expected event {} to be delivered", k),
        }
    }
    assert!(matches!(t.next_outbound(sid, None), RecvOutcome::Empty));
}

#[test]
fn resume_skips_only_already_seen_events() {
    let mut t = stateful();
    let sid = open_session(&mut t);
    for k in 0..3u64 {
        let msg = format!("event-{}", k);
        assert!(matches!(
            t.sessions.push_outbound(sid, msg),
            SendOutcome::Sent
        ));
    }
    match t.next_outbound(sid, Some(0)) {
        RecvOutcome::Item(e) => {
            assert_eq!(e.resumption_id, Some(1));
            assert_eq!(e.message, "event-1");
        }
        _ => panic!("resumption should deliver the first unseen event"),
    }
    match t.next_outbound(sid, Some(0)) {
        RecvOutcome::Item(e) => {
            assert_eq!(e.resumption_id, Some(2));
        }
        _ => panic!("resumption should not drop unseen events"),
    }
    assert!(matches!(t.next_outbound(sid, Some(0)), RecvOutcome::Empty));
}

#[test]
fn inbound_backpressure_returns_busy_not_drop() {
    let mut t = stateful();
    let sid = open_session(&mut t);
    let header = render_u64(sid);
    for k in 0..64u64 {
        let r = t.handle_post(
            Some(ACCEPT_BOTH),
            Some(JSON_CT),
            Some(header.as_str()),
            None,
            Some(notification(&format!("n-{}", k))),
        );
        assert!(matches!(r, PostOutcome::Accepted));
    }
    let r = t.handle_post(
        Some(ACCEPT_BOTH),
        Some(JSON_CT),
        Some(header.as_str()),
        None,
        Some(notification("overflow")),
    );
    match r {
        PostOutcome::Busy(m) => {
            assert!(matches!(m, Incoming::Notification { payload } if payload == "overflow"));
        }
        _ => panic!("a full inbound channel must hand the message back"),
    }
    match t.sessions.pop_inbound(sid) {
        RecvOutcome::Item(sub) => {
            assert!(matches!(sub.message, Incoming::Notification { payload } if payload == "n-0"));
        }
        _ => panic!("the queued messages must survive the refused enqueue"),
    }
}

#[test]
fn outbound_backpressure_blocks_publisher() {
    let mut t = stateful();
    let sid = open_session(&mut t);
    for k in 0..64u64 {
        assert!(matches!(
            t.sessions.push_outbound(sid, format!("m-{}", k)),
            SendOutcome::Sent
        ));
    }
    match t.sessions.push_outbound(sid, "overflow".to_string()) {
        SendOutcome::Full(w) => assert_eq!(w, "overflow"),
        _ => panic!("a full outbound channel must hand the message back"),
    }
}

#[test]
fn bearer_credential_reaches_extension_bag() {
    let mut t = stateful();
    let sid = open_session(&mut t);
    let header = render_u64(sid);
    let r = t.handle_post(
        Some(ACCEPT_BOTH),
        Some(JSON_CT),
        Some(header.as_str()),
        Some("Bearer abc"),
        Some(request("tools/call")),
    );
    assert!(matches!(r, PostOutcome::RequestStream { .. }));
    match t.sessions.pop_inbound(sid) {
        RecvOutcome::Item(sub) => {
            let cred = sub.credential.expect("bearer token should be forwarded");
            assert_eq!(cred.0, "abc");
        }
        _ => panic!("submission should be queued"),
    }
}

#[test]
fn non_bearer_schemes_forward_nothing() {
    let mut t = stateful();
    let sid = open_session(&mut t);
    let header = render_u64(sid);
    for auth in [Some("Basic dXNlcjpwYXNz"), Some("Bearer"), Some("Bearer "), None] {
        let r = t.handle_post(
            Some(ACCEPT_BOTH),
            Some(JSON_CT),
            Some(header.as_str()),
            auth,
            Some(request("tools/call")),
        );
        assert!(matches!(r, PostOutcome::RequestStream { .. }));
        match t.sessions.pop_inbound(sid) {
            RecvOutcome::Item(sub) => assert!(
                sub.credential.is_none(),
                "no credential may be forwarded for {:?}",
                auth
            ),
            _ => panic!("submission should be queued"),
        }
    }
}

#[test]
fn initialize_forwards_bearer_to_new_session() {
    let mut t = stateful();
    let r = t.handle_post(
        Some(ACCEPT_BOTH),
        Some(JSON_CT),
        None,
        Some("Bearer initial-token"),
        Some(init_request("initialize")),
    );
    match r {
        PostOutcome::Initialized { credential, .. } => {
            assert_eq!(credential.expect("credential expected").0, "initial-token");
        }
        _ => panic!("expected session creation"),
    }
}

#[test]
fn post_after_backend_exit_gone() {
    let mut t = stateful();
    let sid = open_session(&mut t);
    t.sessions.close_inbound(sid);
    let header = render_u64(sid);
    let r = t.handle_post(
        Some(ACCEPT_BOTH),
        Some(JSON_CT),
        Some(header.as_str()),
        None,
        Some(request("late")),
    );
    match r {
        PostOutcome::Gone(m) => {
            assert!(matches!(m, Incoming::Request { payload, .. } if payload == "late"));
        }
        _ => panic!("a closed inbound channel must answer gone"),
    }
}

#[test]
fn unreadable_last_event_id_attaches_fresh() {
    let mut t = stateful();
    let sid = open_session(&mut t);
    let header = render_u64(sid);
    let g = t.handle_get(
        Some("text/event-stream"),
        Some(header.as_str()),
        Some("not-an-id"),
    );
    assert!(matches!(
        g,
        GetOutcome::Stream {
            session_id,
            resume_after: None,
        } if session_id == sid
    ));
}

#[test]
fn full_session_scenario() {
    let mut t = stateful();
    let r = t.handle_post(
        Some(ACCEPT_BOTH),
        Some(JSON_CT),
        None,
        None,
        Some(init_request("initialize protocolVersion=2024-11-05")),
    );
    let sid = match r {
        PostOutcome::Initialized {
            session_id,
            message,
            credential,
        } => {
            assert!(matches!(message, Incoming::Request { initialize: true, .. }));
            assert!(credential.is_none());
            session_id
        }
        _ => panic!("initialize should create a session"),
    };
    assert!(t.sessions.has_session(sid));
    let header = render_u64(sid);

    let r = t.handle_post(
        Some(ACCEPT_BOTH),
        Some(JSON_CT),
        Some(header.as_str()),
        None,
        Some(request("tools/call id=1")),
    );
    assert!(matches!(r, PostOutcome::RequestStream { session_id } if session_id == sid));
    let submitted = match t.sessions.pop_inbound(sid) {
        RecvOutcome::Item(sub) => sub.message,
        _ => panic!("backend should see the request"),
    };
    assert!(matches!(submitted, Incoming::Request { payload, .. } if payload == "tools/call id=1"));
    assert!(matches!(
        t.sessions.push_outbound(sid, "response id=1".to_string()),
        SendOutcome::Sent
    ));
    match t.next_outbound(sid, None) {
        RecvOutcome::Item(e) => {
            assert_eq!(e.message, "response id=1");
            assert_eq!(e.resumption_id, Some(0));
        }
        _ => panic!("the correlated response should stream back"),
    }

    let d = t.handle_delete(Some(header.as_str()));
    assert!(matches!(d, DeleteOutcome::Closed));
    let r = t.handle_post(
        Some(ACCEPT_BOTH),
        Some(JSON_CT),
        Some(header.as_str()),
        None,
        Some(request("tools/call id=2")),
    );
    assert!(matches!(r, PostOutcome::SessionNotFound));
}
