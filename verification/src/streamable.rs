//! The bidirectional request-scoped transport: one endpoint serving
//! GET (attach or resume a stream), POST (submit a message; create a
//! session on initialize in stateful mode; one-shot service in
//! stateless mode) and DELETE (terminate a session). This module
//! holds the lifecycle decisions; an embedding performs the HTTP and
//! scheduling work around them and hands in plain header values.

use vstd::prelude::*;
use crate::auth::AuthorizationHeader;
use crate::auth::cred_view;
use crate::auth::extract_bearer;
use crate::auth::opt_str_view;
use crate::auth::spec_bearer;
use crate::message::Incoming;
use crate::queue::CHANNEL_CAPACITY;
use crate::store::RecvOutcome;
use crate::store::SendOutcome;
use crate::store::SessionModel;
use crate::store::SessionStore;
use crate::store::Submission;
use crate::store::Envelope;
use crate::store::drop_seen;
use crate::store::already_seen;
use crate::store::empty_session_model;
use crate::store::with_inbound;
use crate::store::with_outbound;
use crate::text::parse_dec;
use crate::text::parse_u64;
use crate::text::spec_contains_str;
use crate::text::spec_starts_with;
use crate::text::str_contains;
use crate::text::str_starts_with;

verus! {

/// Configuration of the bidirectional transport, immutable after
/// construction: stateful or stateless mode, and the keep-alive
/// interval in milliseconds, if any.
#[derive(Clone, Copy, Debug)]
pub struct StreamableHttpServerConfig {
    /// Whether sessions persist across requests.
    pub stateful_mode: bool,
    /// Keep-alive interval in milliseconds; `None` disables filler.
    pub sse_keep_alive: Option<u64>,
}

impl Default for StreamableHttpServerConfig {
    /// Stateful mode, no keep-alive filler.
    fn default() -> (c: Self)
        ensures
            c.stateful_mode,
            c.sse_keep_alive is None,
    {
        StreamableHttpServerConfig { stateful_mode: true, sse_keep_alive: None }
    }
}

/// A POST requires an accept header listing both JSON and the event
/// stream media type.
pub open spec fn accept_ok_post(accept: Option<Seq<char>>) -> bool {
    match accept {
        Some(a) => spec_contains_str(a, "application/json"@) && spec_contains_str(
            a,
            "text/event-stream"@,
        ),
        None => false,
    }
}

/// A GET requires an event-stream-accepting client.
pub open spec fn accept_ok_get(accept: Option<Seq<char>>) -> bool {
    match accept {
        Some(a) => spec_contains_str(a, "text/event-stream"@),
        None => false,
    }
}

/// A POST body must be declared as JSON.
pub open spec fn content_type_ok(content_type: Option<Seq<char>>) -> bool {
    match content_type {
        Some(c) => spec_starts_with(c, "application/json"@),
        None => false,
    }
}

/// The resumption point requested by a GET, if any: an unreadable
/// last-event id falls back to a fresh attach.
pub open spec fn spec_resume_point(last_event_id: Option<Seq<char>>) -> Option<u64> {
    match last_event_id {
        Some(s) => parse_dec(s),
        None => None,
    }
}

/// What a POST decided, and what the embedding must do next.
pub enum PostOutcome<T> {
    /// The accept header does not list both required media types.
    NotAcceptable,
    /// The body is not declared as JSON.
    UnsupportedMediaType,
    /// The body did not decode to a message.
    BadRequest,
    /// The session id header names no live session.
    SessionNotFound,
    /// Stateful first contact must be the initialize request.
    ExpectedInitialize,
    /// Stateless mode serves requests only.
    UnexpectedMessage,
    /// The session's inbound channel is at capacity; the message is
    /// handed back and the caller must wait and retry.
    Busy(Incoming<T>),
    /// The session's inbound channel is closed; the message is
    /// handed back.
    Gone(Incoming<T>),
    /// A non-request message was enqueued for the backend.
    Accepted,
    /// A session was created: spawn a backend instance for it, hand
    /// it the initialize message, and answer with a single-event
    /// stream carrying the new session id.
    Initialized { session_id: u64, message: Incoming<T>, credential: Option<AuthorizationHeader> },
    /// A request was enqueued: answer with an event stream scoped to
    /// this exchange, reading the session's outbound channel.
    RequestStream { session_id: u64 },
    /// Stateless mode: serve the message with a throwaway backend
    /// instance and stream back whatever it emits.
    Stateless { message: Incoming<T>, credential: Option<AuthorizationHeader> },
}

/// What a GET decided.
pub enum GetOutcome {
    /// The client does not accept an event stream.
    NotAcceptable,
    /// No session id header was supplied.
    MissingSession,
    /// The session id names no live session.
    SessionNotFound,
    /// Attach to the session's outbound stream, resuming past the
    /// given point when one was supplied.
    Stream { session_id: u64, resume_after: Option<u64> },
}

/// What a DELETE decided.
pub enum DeleteOutcome {
    /// No session id header was supplied.
    MissingSession,
    /// The session id names no live session.
    SessionNotFound,
    /// The session was terminated and its entry removed.
    Closed,
}

/// The bidirectional transport: configuration plus the session store.
pub struct StreamableHttpTransport<T> {
    /// The transport's immutable configuration.
    pub config: StreamableHttpServerConfig,
    /// The shared session store all handlers go through.
    pub sessions: SessionStore<T>,
}

impl<T> View for StreamableHttpTransport<T> {
    type V = Map<u64, SessionModel<T>>;

    open spec fn view(&self) -> Map<u64, SessionModel<T>> {
        self.sessions@
    }
}

impl<T> StreamableHttpTransport<T> {
    pub open spec fn wf(self) -> bool {
        self.sessions.wf()
    }

    pub open spec fn can_create(self) -> bool {
        self.sessions.can_create()
    }

    pub fn new(config: StreamableHttpServerConfig) -> (t: Self)
        ensures
            t.wf(),
            t.can_create(),
            t@ == Map::<u64, SessionModel<T>>::empty(),
            t.config == config,
    {
        StreamableHttpTransport { config, sessions: SessionStore::new() }
    }

    fn accept_ok_post_exec(accept: Option<&str>) -> (b: bool)
        ensures
            b == accept_ok_post(opt_str_view(accept)),
    {
        match accept {
            Some(a) => str_contains(a, "application/json") && str_contains(
                a,
                "text/event-stream",
            ),
            None => false,
        }
    }

    fn content_type_ok_exec(content_type: Option<&str>) -> (b: bool)
        ensures
            b == content_type_ok(opt_str_view(content_type)),
    {
        match content_type {
            Some(c) => str_starts_with(c, "application/json"),
            None => false,
        }
    }

    /// The POST handler's decision. Header validation comes first —
    /// accept, then content type, then the decoded body — and a
    /// request is rejected before any session or channel is touched.
    /// In stateful mode a session id header routes the message to
    /// that session; first contact without one must be the initialize
    /// request and creates a session atomically. In stateless mode
    /// every request is served by a throwaway instance and the store
    /// is never touched. Only a well-formed bearer credential is
    /// forwarded, and only on request-kind messages.
    pub fn handle_post(
        &mut self,
        accept: Option<&str>,
        content_type: Option<&str>,
        session: Option<&str>,
        authorization: Option<&str>,
        body: Option<Incoming<T>>,
    ) -> (r: PostOutcome<T>)
        requires
            old(self).wf(),
            old(self).config.stateful_mode && session is None ==> old(self).can_create(),
        ensures
            final(self).wf(),
            final(self).config == old(self).config,
            !accept_ok_post(opt_str_view(accept)) ==> r is NotAcceptable && final(self)@
                == old(self)@,
            accept_ok_post(opt_str_view(accept)) && !content_type_ok(
                opt_str_view(content_type),
            ) ==> r is UnsupportedMediaType && final(self)@ == old(self)@,
            accept_ok_post(opt_str_view(accept)) && content_type_ok(
                opt_str_view(content_type),
            ) && body is None ==> r is BadRequest && final(self)@ == old(self)@,
            (body matches Some(msg) ==> (session matches Some(tok) ==> ((accept_ok_post(
                opt_str_view(accept),
            ) && content_type_ok(opt_str_view(content_type))
                && old(self).config.stateful_mode) ==> ({
                match parse_dec(tok@) {
                    None => r is SessionNotFound && final(self)@ == old(self)@,
                    Some(sid) => if !old(self)@.contains_key(sid) {
                        r is SessionNotFound && final(self)@ == old(self)@
                    } else {
                        let m = old(self)@[sid];
                        if m.inbound_closed {
                            (r matches PostOutcome::Gone(w) && w == msg) && final(self)@
                                == old(self)@
                        } else if m.inbound.len() >= CHANNEL_CAPACITY {
                            (r matches PostOutcome::Busy(w) && w == msg) && final(self)@
                                == old(self)@
                        } else {
                            let sub = final(self)@[sid].inbound.last();
                            final(self)@ == old(self)@.insert(
                                sid,
                                with_inbound(m, m.inbound.push(sub)),
                            ) && sub.message == msg && (if msg is Request {
                                cred_view(sub.credential) == spec_bearer(
                                    opt_str_view(authorization),
                                ) && (r matches PostOutcome::RequestStream { session_id }
                                    && session_id == sid)
                            } else {
                                sub.credential is None && r is Accepted
                            })
                        }
                    },
                }
            })))),
            (body matches Some(msg) ==> ((accept_ok_post(opt_str_view(accept))
                && content_type_ok(opt_str_view(content_type))
                && old(self).config.stateful_mode && session is None) ==> ({
                if msg.is_initialize() {
                    r matches PostOutcome::Initialized { session_id, message, credential }
                        && message == msg && cred_view(credential) == spec_bearer(
                        opt_str_view(authorization),
                    ) && !old(self)@.contains_key(session_id) && final(self)@ == old(
                        self,
                    )@.insert(session_id, empty_session_model::<T>())
                } else {
                    r is ExpectedInitialize && final(self)@ == old(self)@
                }
            }))),
            (body matches Some(msg) ==> ((accept_ok_post(opt_str_view(accept))
                && content_type_ok(opt_str_view(content_type))
                && !old(self).config.stateful_mode) ==> ({
                if msg is Request {
                    r matches PostOutcome::Stateless { message, credential } && message == msg
                        && cred_view(credential) == spec_bearer(opt_str_view(authorization))
                        && final(self)@ == old(self)@
                } else {
                    r is UnexpectedMessage && final(self)@ == old(self)@
                }
            }))),
    {
        if !Self::accept_ok_post_exec(accept) {
            return PostOutcome::NotAcceptable;
        }
        if !Self::content_type_ok_exec(content_type) {
            return PostOutcome::UnsupportedMediaType;
        }
        let msg = match body {
            Some(m) => m,
            None => {
                return PostOutcome::BadRequest;
            },
        };
        if self.config.stateful_mode {
            match session {
                Some(tok) => {
                    let sid = match parse_u64(tok) {
                        Some(s) => s,
                        None => {
                            return PostOutcome::SessionNotFound;
                        },
                    };
                    if !self.sessions.has_session(sid) {
                        return PostOutcome::SessionNotFound;
                    }
                    let is_req = matches!(msg, Incoming::Request { .. });
                    let credential = if is_req {
                        extract_bearer(authorization)
                    } else {
                        None
                    };
                    let sub = Submission { message: msg, credential };
                    match self.sessions.push_inbound(sid, sub) {
                        SendOutcome::Sent => {
                            if is_req {
                                PostOutcome::RequestStream { session_id: sid }
                            } else {
                                PostOutcome::Accepted
                            }
                        },
                        SendOutcome::Full(w) => PostOutcome::Busy(w.message),
                        SendOutcome::Refused(w) => PostOutcome::Gone(w.message),
                        SendOutcome::NoSession(w) => {
                            proof {
                                assert(false);
                            }
                            PostOutcome::Gone(w.message)
                        },
                    }
                },
                None => {
                    let initialize = matches!(msg, Incoming::Request { initialize: true, .. });
                    if initialize {
                        let credential = extract_bearer(authorization);
                        let sid = self.sessions.create();
                        PostOutcome::Initialized { session_id: sid, message: msg, credential }
                    } else {
                        PostOutcome::ExpectedInitialize
                    }
                },
            }
        } else {
            match msg {
                Incoming::Request { .. } => {
                    let credential = extract_bearer(authorization);
                    PostOutcome::Stateless { message: msg, credential }
                },
                _ => PostOutcome::UnexpectedMessage,
            }
        }
    }

    /// The GET handler's decision: validate the accept header, then
    /// the session id, and attach to the session's outbound stream,
    /// resuming past the supplied last-event id when one parses. The
    /// store is not changed by attaching.
    pub fn handle_get(
        &self,
        accept: Option<&str>,
        session: Option<&str>,
        last_event_id: Option<&str>,
    ) -> (r: GetOutcome)
        requires
            self.wf(),
        ensures
            !accept_ok_get(opt_str_view(accept)) ==> r is NotAcceptable,
            accept_ok_get(opt_str_view(accept)) && session is None ==> r is MissingSession,
            (session matches Some(tok) ==> (accept_ok_get(opt_str_view(accept)) ==> ({
                match parse_dec(tok@) {
                    None => r is SessionNotFound,
                    Some(sid) => if !self@.contains_key(sid) {
                        r is SessionNotFound
                    } else {
                        r matches GetOutcome::Stream { session_id, resume_after }
                            && session_id == sid && resume_after == spec_resume_point(
                            opt_str_view(last_event_id),
                        )
                    },
                }
            }))),
    {
        let ok = match accept {
            Some(a) => str_contains(a, "text/event-stream"),
            None => false,
        };
        if !ok {
            return GetOutcome::NotAcceptable;
        }
        let tok = match session {
            Some(t) => t,
            None => {
                return GetOutcome::MissingSession;
            },
        };
        let sid = match parse_u64(tok) {
            Some(s) => s,
            None => {
                return GetOutcome::SessionNotFound;
            },
        };
        if !self.sessions.has_session(sid) {
            return GetOutcome::SessionNotFound;
        }
        let resume_after = match last_event_id {
            Some(l) => parse_u64(l),
            None => None,
        };
        GetOutcome::Stream { session_id: sid, resume_after }
    }

    /// The DELETE handler's decision: with a live session id the
    /// session is removed — atomically, no dangling entry remains —
    /// and a repeat of the same DELETE finds nothing.
    pub fn handle_delete(&mut self, session: Option<&str>) -> (r: DeleteOutcome)
        requires
            old(self).wf(),
        ensures
            final(self).wf(),
            final(self).config == old(self).config,
            session is None ==> r is MissingSession && final(self)@ == old(self)@,
            session matches Some(tok) ==> ({
                match parse_dec(tok@) {
                    None => r is SessionNotFound && final(self)@ == old(self)@,
                    Some(sid) => if old(self)@.contains_key(sid) {
                        r is Closed && final(self)@ == old(self)@.remove(sid)
                            && !final(self)@.contains_key(sid)
                    } else {
                        r is SessionNotFound && final(self)@ == old(self)@
                    },
                }
            }),
    {
        let tok = match session {
            Some(t) => t,
            None => {
                return DeleteOutcome::MissingSession;
            },
        };
        let sid = match parse_u64(tok) {
            Some(s) => s,
            None => {
                return DeleteOutcome::SessionNotFound;
            },
        };
        if self.sessions.remove(sid) {
            DeleteOutcome::Closed
        } else {
            proof {
                assert(final(self)@ =~= old(self)@);
            }
            DeleteOutcome::SessionNotFound
        }
    }

    /// The next event for an attached stream: the head of the
    /// session's outbound channel, skipping — and discarding — the
    /// leading envelopes a resuming client has already seen. Events
    /// come out in the order the backend enqueued them.
    pub fn next_outbound(&mut self, session_id: u64, resume_after: Option<u64>) -> (r:
        RecvOutcome<Envelope<T>>)
        requires
            old(self).wf(),
        ensures
            final(self).wf(),
            final(self).config == old(self).config,
            !old(self)@.contains_key(session_id) ==> r is NoSession && final(self)@ == old(
                self,
            )@,
            old(self)@.contains_key(session_id) ==> ({
                let m = old(self)@[session_id];
                let rest = drop_seen(m.outbound, resume_after);
                if rest.len() > 0 {
                    (r matches RecvOutcome::Item(v) && v == rest[0]) && final(self)@ == old(
                        self,
                    )@.insert(
                        session_id,
                        with_outbound(m, rest.drop_first(), m.next_event_id),
                    )
                } else {
                    final(self)@ == old(self)@.insert(
                        session_id,
                        with_outbound(m, rest, m.next_event_id),
                    ) && (if m.outbound_closed {
                        r is Done
                    } else {
                        r is Empty
                    })
                }
            }),
    {
        if !self.sessions.has_session(session_id) {
            return RecvOutcome::NoSession;
        }
        proof {
            assert(old(self)@.insert(session_id, old(self)@[session_id]) =~= old(self)@);
        }
        loop
            invariant
                self.wf(),
                self.config == old(self).config,
                old(self)@.contains_key(session_id),
                self@.contains_key(session_id),
                ({
                    let m0 = old(self)@[session_id];
                    let mc = self@[session_id];
                    mc.inbound == m0.inbound && mc.inbound_closed == m0.inbound_closed
                        && mc.outbound_closed == m0.outbound_closed && mc.next_event_id
                        == m0.next_event_id && drop_seen(m0.outbound, resume_after)
                        == drop_seen(mc.outbound, resume_after) && self@ == old(
                        self,
                    )@.insert(session_id, mc)
                }),
            decreases self@[session_id].outbound.len(),
        {
            let ghost m0 = old(self)@[session_id];
            let ghost mc = self@[session_id];
            match self.sessions.pop_outbound(session_id) {
                RecvOutcome::Item(e) => {
                    let seen = match (e.resumption_id, resume_after) {
                        (Some(eid), Some(a)) => eid <= a,
                        _ => false,
                    };
                    proof {
                        assert(seen == already_seen(e, resume_after));
                        assert(e == mc.outbound[0]);
                    }
                    if !seen {
                        proof {
                            assert(drop_seen(mc.outbound, resume_after) == mc.outbound);
                            let rest = drop_seen(m0.outbound, resume_after);
                            assert(self@[session_id] =~= with_outbound(
                                m0,
                                rest.drop_first(),
                                m0.next_event_id,
                            ));
                            assert(self@ =~= old(self)@.insert(
                                session_id,
                                with_outbound(m0, rest.drop_first(), m0.next_event_id),
                            ));
                        }
                        return RecvOutcome::Item(e);
                    }
                    proof {
                        assert(drop_seen(mc.outbound, resume_after) == drop_seen(
                            mc.outbound.drop_first(),
                            resume_after,
                        ));
                        assert(self@[session_id] =~= with_outbound(
                            m0,
                            mc.outbound.drop_first(),
                            m0.next_event_id,
                        ));
                    }
                },
                RecvOutcome::Empty => {
                    proof {
                        assert(mc.outbound.len() == 0);
                        assert(drop_seen(m0.outbound, resume_after) == mc.outbound);
                        assert(self@[session_id] =~= with_outbound(
                            m0,
                            drop_seen(m0.outbound, resume_after),
                            m0.next_event_id,
                        ));
                        assert(self@ =~= old(self)@.insert(
                            session_id,
                            with_outbound(
                                m0,
                                drop_seen(m0.outbound, resume_after),
                                m0.next_event_id,
                            ),
                        ));
                    }
                    return RecvOutcome::Empty;
                },
                RecvOutcome::Done => {
                    proof {
                        assert(mc.outbound.len() == 0);
                        assert(drop_seen(m0.outbound, resume_after) == mc.outbound);
                        assert(self@ =~= old(self)@.insert(
                            session_id,
                            with_outbound(
                                m0,
                                drop_seen(m0.outbound, resume_after),
                                m0.next_event_id,
                            ),
                        ));
                    }
                    return RecvOutcome::Done;
                },
                RecvOutcome::NoSession => {
                    proof {
                        assert(false);
                    }
                    return RecvOutcome::NoSession;
                },
            }
        }
    }

    /// Reports whether fresh session identifiers are still available;
    /// the embedding checks this before a session-creating POST.
    pub fn ids_available(&self) -> (b: bool)
        ensures
            b == self.can_create(),
    {
        self.sessions.ids_available()
    }
}

/// Session creation is visible at once and disturbs nobody: the new
/// id maps to a fresh session, and every other session is untouched.
pub proof fn lemma_created_session_retrievable<T>(m: Map<u64, SessionModel<T>>, id: u64)
    requires
        !m.contains_key(id),
    ensures
        m.insert(id, empty_session_model::<T>()).contains_key(id),
        m.insert(id, empty_session_model::<T>())[id] == empty_session_model::<T>(),
        forall|other: u64|
            #![auto]
            m.contains_key(other) ==> m.insert(id, empty_session_model::<T>()).contains_key(
                other,
            ) && m.insert(id, empty_session_model::<T>())[other] == m[other],
{
}

/// Termination is idempotent in effect: after a session is removed
/// the id is gone, and removing it again changes nothing — success,
/// then not-found, never a double teardown.
pub proof fn lemma_delete_twice<T>(m: Map<u64, SessionModel<T>>, id: u64)
    requires
        m.contains_key(id),
    ensures
        !m.remove(id).contains_key(id),
        m.remove(id).remove(id) == m.remove(id),
{
    assert(m.remove(id).remove(id) =~= m.remove(id));
}

} // verus!
