use rmcp_actix_web::message::Incoming;
use rmcp_actix_web::sse::{PostEventQuery, SsePostOutcome, SseTransport};
use rmcp_actix_web::store::{RecvOutcome, SendOutcome};
use rmcp_actix_web::text::render_u64;

fn transport() -> SseTransport<String> {
    SseTransport::new("/sse".to_string(), "/message".to_string(), None)
}

fn request(payload: &str) -> Incoming<String> {
    Incoming::Request {
        initialize: false,
        payload: payload.to_string(),
    }
}

#[test]
fn connect_announces_submission_endpoint() {
    let mut t = transport();
    let c = t.connect("/api/sse");
    assert_eq!(
        c.endpoint_event,
        format!("event: endpoint\ndata: /api/message?sessionId={}\n\n", c.session_id)
    );
    assert!(t.sessions.has_session(c.session_id));
}

#[test]
fn connect_without_matching_suffix_keeps_path() {
    let mut t = transport();
    let c = t.connect("/events");
    assert_eq!(
        c.endpoint_event,
        format!("event: endpoint\ndata: /events/message?sessionId={}\n\n", c.session_id)
    );
}

#[test]
fn connections_get_distinct_sessions() {
    let mut t = transport();
    let a = t.connect("/sse");
    let b = t.connect("/sse");
    assert_ne!(a.session_id, b.session_id);
}

#[test]
fn submit_to_unknown_session_not_found() {
    let mut t = transport();
    let q = PostEventQuery {
        session_id: "7".to_string(),
    };
    let r = t.submit(&q, None, request("tools/list"));
    assert!(matches!(r, SsePostOutcome::NotFound));
    let q2 = PostEventQuery {
        session_id: "garbled".to_string(),
    };
    let r2 = t.submit(&q2, None, request("tools/list"));
    assert!(matches!(r2, SsePostOutcome::NotFound));
}

#[test]
fn submit_reaches_backend_verbatim() {
    let mut t = transport();
    let c = t.connect("/sse");
    let q = PostEventQuery {
        session_id: render_u64(c.session_id),
    };
    let r = t.submit(&q, None, request("tools/call"));
    assert!(matches!(r, SsePostOutcome::Accepted));
    match t.sessions.pop_inbound(c.session_id) {
        RecvOutcome::Item(sub) => {
            assert!(matches!(sub.message, Incoming::Request { payload, .. } if payload == "tools/call"));
        }
        _ => panic!("the submission should be queued for the backend"),
    }
}

#[test]
fn submit_forwards_bearer_only() {
    let mut t = transport();
    let c = t.connect("/sse");
    let q = PostEventQuery {
        session_id: render_u64(c.session_id),
    };
    assert!(matches!(
        t.submit(&q, Some("Bearer token-one"), request("a")),
        SsePostOutcome::Accepted
    ));
    assert!(matches!(
        t.submit(&q, Some("Basic dXNlcjpwYXNz"), request("b")),
        SsePostOutcome::Accepted
    ));
    match t.sessions.pop_inbound(c.session_id) {
        RecvOutcome::Item(sub) => {
            assert_eq!(sub.credential.expect("bearer expected").0, "token-one");
        }
        _ => panic!("first submission missing"),
    }
    match t.sessions.pop_inbound(c.session_id) {
        RecvOutcome::Item(sub) => assert!(sub.credential.is_none()),
        _ => panic!("second submission missing"),
    }
}

#[test]
fn submit_after_backend_exit_gone() {
    let mut t = transport();
    let c = t.connect("/sse");
    t.sessions.close_inbound(c.session_id);
    let q = PostEventQuery {
        session_id: render_u64(c.session_id),
    };
    let r = t.submit(&q, None, request("late"));
    match r {
        SsePostOutcome::Gone(m) => {
            assert!(matches!(m, Incoming::Request { payload, .. } if payload == "late"));
        }
        _ => panic!("a closed session must answer gone"),
    }
}

#[test]
fn disconnect_removes_session() {
    let mut t = transport();
    let c = t.connect("/sse");
    assert!(t.disconnect(c.session_id));
    assert!(!t.sessions.has_session(c.session_id));
    assert!(!t.disconnect(c.session_id));
}

#[test]
fn legacy_outbound_has_no_resumption_ids() {
    let mut t = transport();
    let c = t.connect("/sse");
    assert!(matches!(
        t.sessions.push_outbound_plain(c.session_id, "hello".to_string()),
        SendOutcome::Sent
    ));
    match t.sessions.pop_outbound(c.session_id) {
        RecvOutcome::Item(e) => {
            assert_eq!(e.message, "hello");
            assert_eq!(e.resumption_id, None);
        }
        _ => panic!("the published message should stream out"),
    }
}
