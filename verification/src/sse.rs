//! The legacy unidirectional streaming variant: one long-lived
//! server-to-client event stream per session, opened by announcing
//! the companion submission endpoint, plus a fire-and-forget
//! submission endpoint keyed by a session id query parameter. This
//! variant has no resumption semantics; every accepted backend
//! message is multiplexed onto the single outbound stream.

use vstd::prelude::*;
use vstd::string::StringExecFns;
use crate::auth::cred_view;
use crate::auth::extract_bearer;
use crate::auth::opt_str_view;
use crate::auth::spec_bearer;
use crate::encoder::encode_endpoint_event;
use crate::encoder::endpoint_frame;
use crate::encoder::post_endpoint_path;
use crate::encoder::spec_post_endpoint_path;
use crate::message::Incoming;
use crate::queue::CHANNEL_CAPACITY;
use crate::store::SendOutcome;
use crate::store::SessionModel;
use crate::store::SessionStore;
use crate::store::Submission;
use crate::store::empty_session_model;
use crate::store::with_inbound;
use crate::text::parse_dec;
use crate::text::parse_u64;

verus! {

/// The query parameters of the legacy submission endpoint.
pub struct PostEventQuery {
    /// The session id from the query string.
    pub session_id: String,
}

/// What opening a legacy stream produced: the new session and the
/// endpoint announcement the stream must emit first.
pub struct SseConnection {
    /// The id of the session allocated for this connection.
    pub session_id: u64,
    /// The framing line announcing the submission endpoint,
    /// parameterized with the new session id.
    pub endpoint_event: String,
}

/// What a legacy submission decided.
pub enum SsePostOutcome<T> {
    /// The session id names no live session.
    NotFound,
    /// The session's inbound channel is closed; the message is
    /// handed back.
    Gone(Incoming<T>),
    /// The session's inbound channel is at capacity; the message is
    /// handed back and the caller must wait and retry.
    Busy(Incoming<T>),
    /// The message was enqueued for the backend.
    Accepted,
}

/// The legacy transport: endpoint paths plus the session store.
pub struct SseTransport<T> {
    /// The path of the stream endpoint.
    pub sse_path: String,
    /// The path of the submission endpoint.
    pub post_path: String,
    /// Keep-alive interval in milliseconds; `None` leaves the
    /// embedding's default in force.
    pub sse_keep_alive: Option<u64>,
    /// The shared session store both endpoints go through.
    pub sessions: SessionStore<T>,
}

impl<T> View for SseTransport<T> {
    type V = Map<u64, SessionModel<T>>;

    open spec fn view(&self) -> Map<u64, SessionModel<T>> {
        self.sessions@
    }
}

impl<T> SseTransport<T> {
    pub open spec fn wf(self) -> bool {
        self.sessions.wf()
    }

    pub open spec fn can_create(self) -> bool {
        self.sessions.can_create()
    }

    pub fn new(sse_path: String, post_path: String, sse_keep_alive: Option<u64>) -> (t: Self)
        ensures
            t.wf(),
            t.can_create(),
            t@ == Map::<u64, SessionModel<T>>::empty(),
            t.sse_path == sse_path,
            t.post_path == post_path,
            t.sse_keep_alive == sse_keep_alive,
    {
        SseTransport { sse_path, post_path, sse_keep_alive, sessions: SessionStore::new() }
    }

    /// A stream connection: allocates a fresh session, registers its
    /// duplex channel, and returns the endpoint announcement — the
    /// request path with the stream endpoint's suffix replaced by the
    /// submission endpoint, carrying the new session id.
    pub fn connect(&mut self, request_path: &str) -> (c: SseConnection)
        requires
            old(self).wf(),
            old(self).can_create(),
        ensures
            final(self).wf(),
            final(self).sse_path == old(self).sse_path,
            final(self).post_path == old(self).post_path,
            final(self).sse_keep_alive == old(self).sse_keep_alive,
            !old(self)@.contains_key(c.session_id),
            final(self)@ == old(self)@.insert(c.session_id, empty_session_model::<T>()),
            c.endpoint_event@ == endpoint_frame(
                spec_post_endpoint_path(
                    request_path@,
                    old(self).sse_path@,
                    old(self).post_path@,
                ),
                c.session_id,
            ),
    {
        let sid = self.sessions.create();
        let path = post_endpoint_path(
            request_path,
            self.sse_path.as_str(),
            self.post_path.as_str(),
        );
        let endpoint_event = encode_endpoint_event(path.as_str(), sid);
        SseConnection { session_id: sid, endpoint_event }
    }

    /// A submission: looks the session up by the query parameter and
    /// enqueues the message on its inbound channel. Only a
    /// well-formed bearer credential is forwarded, and only on
    /// request-kind messages.
    pub fn submit(
        &mut self,
        query: &PostEventQuery,
        authorization: Option<&str>,
        message: Incoming<T>,
    ) -> (r: SsePostOutcome<T>)
        requires
            old(self).wf(),
        ensures
            final(self).wf(),
            final(self).sse_path == old(self).sse_path,
            final(self).post_path == old(self).post_path,
            final(self).sse_keep_alive == old(self).sse_keep_alive,
            ({
                match parse_dec(query.session_id@) {
                    None => r is NotFound && final(self)@ == old(self)@,
                    Some(sid) => if !old(self)@.contains_key(sid) {
                        r is NotFound && final(self)@ == old(self)@
                    } else {
                        let m = old(self)@[sid];
                        if m.inbound_closed {
                            (r matches SsePostOutcome::Gone(w) && w == message)
                                && final(self)@ == old(self)@
                        } else if m.inbound.len() >= CHANNEL_CAPACITY {
                            (r matches SsePostOutcome::Busy(w) && w == message)
                                && final(self)@ == old(self)@
                        } else {
                            let sub = final(self)@[sid].inbound.last();
                            r is Accepted && final(self)@ == old(self)@.insert(
                                sid,
                                with_inbound(m, m.inbound.push(sub)),
                            ) && sub.message == message && (if message is Request {
                                cred_view(sub.credential) == spec_bearer(
                                    opt_str_view(authorization),
                                )
                            } else {
                                sub.credential is None
                            })
                        }
                    },
                }
            }),
    {
        let sid = match parse_u64(query.session_id.as_str()) {
            Some(s) => s,
            None => {
                return SsePostOutcome::NotFound;
            },
        };
        if !self.sessions.has_session(sid) {
            return SsePostOutcome::NotFound;
        }
        let is_req = matches!(message, Incoming::Request { .. });
        let credential = if is_req {
            extract_bearer(authorization)
        } else {
            None
        };
        let sub = Submission { message, credential };
        match self.sessions.push_inbound(sid, sub) {
            SendOutcome::Sent => SsePostOutcome::Accepted,
            SendOutcome::Full(w) => SsePostOutcome::Busy(w.message),
            SendOutcome::Refused(w) => SsePostOutcome::Gone(w.message),
            SendOutcome::NoSession(w) => {
                proof {
                    assert(false);
                }
                SsePostOutcome::Gone(w.message)
            },
        }
    }

    /// A client disconnect or backend exit removes the session; both
    /// paths may race and the second one finds nothing, harmlessly.
    pub fn disconnect(&mut self, session_id: u64) -> (found: bool)
        requires
            old(self).wf(),
        ensures
            final(self).wf(),
            final(self).sse_path == old(self).sse_path,
            final(self).post_path == old(self).post_path,
            final(self).sse_keep_alive == old(self).sse_keep_alive,
            found == old(self)@.contains_key(session_id),
            final(self)@ == old(self)@.remove(session_id),
            !final(self)@.contains_key(session_id),
    {
        self.sessions.remove(session_id)
    }
}

} // verus!
