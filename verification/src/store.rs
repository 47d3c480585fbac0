//! The session store: maps a session identifier to the duplex channel
//! that routes messages between HTTP handlers and the session's
//! backend instance. Identifiers are issued from a counter and never
//! reused; creation, lookup and removal are atomic with respect to
//! one another.

use vstd::prelude::*;
use crate::auth::AuthorizationHeader;
use crate::message::Incoming;
use crate::queue::BoundedQueue;
use crate::queue::CHANNEL_CAPACITY;
use crate::queue::PopOutcome;
use crate::queue::PushOutcome;

verus! {

/// One item on a session's inbound (client to backend) channel: the
/// submitted message together with the extension bag — the credential
/// forwarded for this request, if any.
pub struct Submission<T> {
    pub message: Incoming<T>,
    pub credential: Option<AuthorizationHeader>,
}

/// One item on a session's outbound (backend to client) channel: the
/// message and, on the bidirectional variant, the resumption id under
/// which the event is delivered.
pub struct Envelope<T> {
    pub message: T,
    pub resumption_id: Option<u64>,
}

/// The mathematical model of one session.
pub ghost struct SessionModel<T> {
    pub inbound: Seq<Submission<T>>,
    pub outbound: Seq<Envelope<T>>,
    pub inbound_closed: bool,
    pub outbound_closed: bool,
    pub next_event_id: u64,
}

/// Outbound envelopes carry their resumption ids in issue order:
/// marked events stand in the channel in strictly increasing id
/// order, and every id was issued below the session's counter.
pub open spec fn events_in_issue_order<T>(m: SessionModel<T>) -> bool {
    &&& forall|k1: int, k2: int|
        #![trigger m.outbound[k1].resumption_id, m.outbound[k2].resumption_id]
        0 <= k1 < k2 < m.outbound.len() ==> match (
            m.outbound[k1].resumption_id,
            m.outbound[k2].resumption_id,
        ) {
            (Some(e1), Some(e2)) => e1 < e2,
            _ => true,
        }
    &&& forall|k: int|
        0 <= k < m.outbound.len() ==> match #[trigger] m.outbound[k].resumption_id {
            Some(e) => e < m.next_event_id,
            None => true,
        }
}

/// The model of a session that was just created.
pub open spec fn empty_session_model<T>() -> SessionModel<T> {
    SessionModel {
        inbound: Seq::empty(),
        outbound: Seq::empty(),
        inbound_closed: false,
        outbound_closed: false,
        next_event_id: 0,
    }
}

struct Session<T> {
    id: u64,
    inbound: BoundedQueue<Submission<T>>,
    outbound: BoundedQueue<Envelope<T>>,
    next_event_id: u64,
}

impl<T> Session<T> {
    spec fn model(self) -> SessionModel<T> {
        SessionModel {
            inbound: self.inbound.contents(),
            outbound: self.outbound.contents(),
            inbound_closed: self.inbound.is_closed(),
            outbound_closed: self.outbound.is_closed(),
            next_event_id: self.next_event_id,
        }
    }

    spec fn wf(self) -> bool {
        &&& self.inbound.wf()
        &&& self.outbound.wf()
        &&& self.inbound.cap() == CHANNEL_CAPACITY
        &&& self.outbound.cap() == CHANNEL_CAPACITY
        &&& events_in_issue_order(self.model())
    }
}

/// Result of routing an item to a session's channel. A refused item
/// comes back to the caller: nothing is silently dropped.
pub enum SendOutcome<V> {
    /// The item was appended to the channel.
    Sent,
    /// No session with that id exists; the item is returned.
    NoSession(V),
    /// The channel is at capacity; the item is returned and the
    /// producer must wait.
    Full(V),
    /// The channel is closed; the item is returned.
    Refused(V),
}

/// Result of reading from a session's channel.
pub enum RecvOutcome<V> {
    /// The item that was at the head of the channel.
    Item(V),
    /// The channel is open but has nothing queued: the consumer waits.
    Empty,
    /// The channel is closed and drained: end of stream.
    Done,
    /// No session with that id exists.
    NoSession,
}

/// The session store: a guarded map from session id to duplex channel.
pub struct SessionStore<T> {
    next_id: u64,
    sessions: Vec<Session<T>>,
}

spec fn seq_map<T>(s: Seq<Session<T>>) -> Map<u64, SessionModel<T>>
    decreases s.len(),
{
    if s.len() == 0 {
        Map::empty()
    } else {
        seq_map(s.drop_last()).insert(s.last().id, s.last().model())
    }
}

spec fn ids_unique<T>(s: Seq<Session<T>>) -> bool {
    forall|i: int, j: int|
        #![trigger s[i].id, s[j].id]
        0 <= i < j < s.len() ==> s[i].id != s[j].id
}

impl<T> View for SessionStore<T> {
    type V = Map<u64, SessionModel<T>>;

    closed spec fn view(&self) -> Map<u64, SessionModel<T>> {
        seq_map(self.sessions@)
    }
}

proof fn lemma_seq_map_contains<T>(s: Seq<Session<T>>, id: u64)
    ensures
        seq_map(s).contains_key(id) <==> exists|i: int| 0 <= i < s.len() && s[i].id == id,
    decreases s.len(),
{
    if s.len() > 0 {
        lemma_seq_map_contains(s.drop_last(), id);
        if s.last().id == id {
            assert(s[s.len() - 1].id == id);
        } else if seq_map(s).contains_key(id) {
            let i = choose|i: int| 0 <= i < s.drop_last().len() && s.drop_last()[i].id == id;
            assert(s[i].id == id);
        } else if exists|i: int| 0 <= i < s.len() && s[i].id == id {
            let i = choose|i: int| 0 <= i < s.len() && s[i].id == id;
            assert(s.drop_last()[i].id == id);
        }
    }
}

proof fn lemma_seq_map_index<T>(s: Seq<Session<T>>, i: int)
    requires
        ids_unique(s),
        0 <= i < s.len(),
    ensures
        seq_map(s).contains_key(s[i].id),
        seq_map(s)[s[i].id] == s[i].model(),
    decreases s.len(),
{
    lemma_seq_map_contains(s, s[i].id);
    if i < s.len() - 1 {
        assert(ids_unique(s.drop_last()));
        lemma_seq_map_index(s.drop_last(), i);
        assert(s.drop_last()[i] == s[i]);
        assert(s[i].id != s[s.len() - 1].id);
    }
}

proof fn lemma_seq_map_update<T>(s: Seq<Session<T>>, i: int, sess: Session<T>)
    requires
        ids_unique(s),
        0 <= i < s.len(),
        sess.id == s[i].id,
    ensures
        seq_map(s.update(i, sess)) == seq_map(s).insert(sess.id, sess.model()),
    decreases s.len(),
{
    let s2 = s.update(i, sess);
    if i == s.len() - 1 {
        assert(s2.drop_last() =~= s.drop_last());
        assert(s2.last() == sess);
        assert(seq_map(s2) =~= seq_map(s).insert(sess.id, sess.model()));
    } else {
        assert(ids_unique(s.drop_last()));
        assert(s.drop_last()[i] == s[i]);
        lemma_seq_map_update(s.drop_last(), i, sess);
        assert(s2.drop_last() =~= s.drop_last().update(i, sess));
        assert(s2.last() == s.last());
        assert(s[i].id != s[s.len() - 1].id);
        assert(seq_map(s2) =~= seq_map(s).insert(sess.id, sess.model()));
    }
}

proof fn lemma_seq_map_push<T>(s: Seq<Session<T>>, sess: Session<T>)
    ensures
        seq_map(s.push(sess)) == seq_map(s).insert(sess.id, sess.model()),
{
    assert(s.push(sess).drop_last() =~= s);
    assert(s.push(sess).last() == sess);
}

proof fn lemma_seq_map_remove<T>(s: Seq<Session<T>>, i: int)
    requires
        ids_unique(s),
        0 <= i < s.len(),
    ensures
        seq_map(s.remove(i)) == seq_map(s).remove(s[i].id),
    decreases s.len(),
{
    let id = s[i].id;
    let s2 = s.remove(i);
    s.remove_ensures(i);
    if i == s.len() - 1 {
        assert(s2 =~= s.drop_last());
        lemma_seq_map_contains(s.drop_last(), id);
        assert(forall|j: int| 0 <= j < s.len() - 1 ==> s[j].id != (#[trigger] s[i].id));
        assert(!seq_map(s.drop_last()).contains_key(id));
        assert(seq_map(s2) =~= seq_map(s).remove(id));
    } else {
        assert(ids_unique(s.drop_last()));
        assert(s.drop_last()[i] == s[i]);
        lemma_seq_map_remove(s.drop_last(), i);
        s.drop_last().remove_ensures(i);
        assert(s2.drop_last() =~= s.drop_last().remove(i));
        assert(s2.last() == s.last());
        assert(s[i].id != s[s.len() - 1].id);
        assert(seq_map(s2) =~= seq_map(s).remove(id));
    }
}

impl<T> SessionStore<T> {
    /// All sessions well-formed, ids unique and below the counter.
    pub closed spec fn wf(self) -> bool {
        &&& forall|i: int|
            0 <= i < self.sessions@.len() ==> (#[trigger] self.sessions@[i]).wf()
        &&& forall|i: int|
            0 <= i < self.sessions@.len() ==> (#[trigger] self.sessions@[i]).id < self.next_id
        &&& ids_unique(self.sessions@)
    }

    /// Identifiers are still available: the issuing counter has room.
    pub closed spec fn can_create(self) -> bool {
        self.next_id < u64::MAX
    }

    pub fn new() -> (s: Self)
        ensures
            s.wf(),
            s.can_create(),
            s@ == Map::<u64, SessionModel<T>>::empty(),
    {
        SessionStore { next_id: 0, sessions: Vec::new() }
    }

    fn find_index(&self, id: u64) -> (r: Option<usize>)
        requires
            self.wf(),
        ensures
            match r {
                Some(i) => i < self.sessions@.len() && self.sessions@[i as int].id == id
                    && self@.contains_key(id),
                None => !self@.contains_key(id),
            },
    {
        let n = self.sessions.len();
        let mut i: usize = 0;
        while i < n
            invariant
                n == self.sessions@.len(),
                0 <= i <= n,
                forall|j: int| 0 <= j < i ==> (#[trigger] self.sessions@[j]).id != id,
            decreases n - i,
        {
            if self.sessions[i].id == id {
                proof {
                    lemma_seq_map_contains(self.sessions@, id);
                }
                return Some(i);
            }
            i += 1;
        }
        proof {
            lemma_seq_map_contains(self.sessions@, id);
        }
        None
    }

    /// Creation: issues a fresh id — distinct from every id ever
    /// issued before — and registers an empty duplex channel under it,
    /// atomically. The new session is retrievable at once.
    pub fn create(&mut self) -> (id: u64)
        requires
            old(self).wf(),
            old(self).can_create(),
        ensures
            final(self).wf(),
            !old(self)@.contains_key(id),
            final(self)@ == old(self)@.insert(id, empty_session_model::<T>()),
            final(self)@.contains_key(id),
    {
        let id = self.next_id;
        self.next_id = self.next_id + 1;
        let sess = Session {
            id,
            inbound: BoundedQueue::new(CHANNEL_CAPACITY),
            outbound: BoundedQueue::new(CHANNEL_CAPACITY),
            next_event_id: 0,
        };
        proof {
            lemma_seq_map_contains(self.sessions@, id);
            lemma_seq_map_push(self.sessions@, sess);
            assert(sess.model() =~= empty_session_model::<T>());
        }
        self.sessions.push(sess);
        id
    }

    /// Lookup never fails on an unknown id: it reports absence.
    pub fn has_session(&self, id: u64) -> (b: bool)
        requires
            self.wf(),
        ensures
            b == self@.contains_key(id),
    {
        self.find_index(id).is_some()
    }

    /// Removal: the entry is gone atomically; removal of an unknown
    /// id is not an error and changes nothing.
    pub fn remove(&mut self, id: u64) -> (found: bool)
        requires
            old(self).wf(),
        ensures
            final(self).wf(),
            found == old(self)@.contains_key(id),
            final(self)@ == old(self)@.remove(id),
            !final(self)@.contains_key(id),
    {
        let r = self.find_index(id);
        match r {
            Some(i) => {
                proof {
                    lemma_seq_map_remove(self.sessions@, i as int);
                    self.sessions@.remove_ensures(i as int);
                }
                let _ = self.sessions.remove(i);
                proof {
                    let s_old = old(self).sessions@;
                    let s_new = self.sessions@;
                    assert forall|j: int| 0 <= j < s_new.len() implies (#[trigger] s_new[j]).wf()
                        && s_new[j].id < self.next_id by {
                        if j < i {
                            assert(s_new[j] == s_old[j]);
                        } else {
                            assert(s_new[j] == s_old[j + 1]);
                        }
                    }
                    assert forall|a: int, b: int|
                        #![trigger s_new[a].id, s_new[b].id]
                        0 <= a < b < s_new.len() implies s_new[a].id != s_new[b].id by {
                        let oa: int = if a < i {
                            a
                        } else {
                            a + 1
                        };
                        let ob: int = if b < i {
                            b
                        } else {
                            b + 1
                        };
                        assert(s_new[a] == s_old[oa]);
                        assert(s_new[b] == s_old[ob]);
                        assert(s_old[oa].id != s_old[ob].id);
                    }
                    lemma_seq_map_contains(s_new, id);
                    assert forall|j: int| 0 <= j < s_new.len() implies (#[trigger] s_new[j]).id
                        != id by {
                        if j < i {
                            assert(s_new[j] == s_old[j]);
                            assert(s_old[j].id != s_old[i as int].id);
                        } else {
                            assert(s_new[j] == s_old[j + 1]);
                            assert(s_old[i as int].id != s_old[j + 1].id);
                        }
                    }
                }
                true
            },
            None => {
                proof {
                    assert(final(self)@ =~= old(self)@.remove(id));
                }
                false
            },
        }
    }
}

/// The updated model after a change to the inbound channel contents.
pub open spec fn with_inbound<T>(m: SessionModel<T>, q: Seq<Submission<T>>) -> SessionModel<T> {
    SessionModel { inbound: q, ..m }
}

/// The updated model after a change to the outbound channel contents.
pub open spec fn with_outbound<T>(
    m: SessionModel<T>,
    q: Seq<Envelope<T>>,
    next_event_id: u64,
) -> SessionModel<T> {
    SessionModel { outbound: q, next_event_id, ..m }
}

impl<T> SessionStore<T> {
    /// Enqueues a client submission onto a session's inbound channel.
    pub fn push_inbound(&mut self, id: u64, sub: Submission<T>) -> (r: SendOutcome<
        Submission<T>,
    >)
        requires
            old(self).wf(),
        ensures
            final(self).wf(),
            !old(self)@.contains_key(id) ==> (r matches SendOutcome::NoSession(w) && w == sub)
                && final(self)@ == old(self)@,
            old(self)@.contains_key(id) ==> ({
                let m = old(self)@[id];
                if m.inbound_closed {
                    (r matches SendOutcome::Refused(w) && w == sub)
                        && final(self)@ == old(self)@
                } else if m.inbound.len() >= CHANNEL_CAPACITY {
                    (r matches SendOutcome::Full(w) && w == sub) && final(self)@ == old(self)@
                } else {
                    r is Sent && final(self)@ == old(self)@.insert(
                        id,
                        with_inbound(m, m.inbound.push(sub)),
                    )
                }
            }),
    {
        let found = self.find_index(id);
        match found {
            None => SendOutcome::NoSession(sub),
            Some(i) => {
                proof {
                    lemma_seq_map_index(self.sessions@, i as int);
                }
                let sess = &mut self.sessions[i];
                let r = sess.inbound.push(sub);
                proof {
                    lemma_seq_map_update(
                        old(self).sessions@,
                        i as int,
                        self.sessions@[i as int],
                    );
                    let m = old(self)@[id];
                    if !m.inbound_closed && m.inbound.len() < CHANNEL_CAPACITY {
                        assert(self.sessions@[i as int].model() =~= with_inbound(
                            m,
                            m.inbound.push(sub),
                        ));
                    } else {
                        assert(self.sessions@[i as int].model() =~= m);
                        assert(self@ =~= old(self)@);
                    }
                }
                match r {
                    PushOutcome::Pushed => SendOutcome::Sent,
                    PushOutcome::Full(w) => SendOutcome::Full(w),
                    PushOutcome::Refused(w) => SendOutcome::Refused(w),
                }
            },
        }
    }

    /// Dequeues the next client submission for the backend loop.
    pub fn pop_inbound(&mut self, id: u64) -> (r: RecvOutcome<Submission<T>>)
        requires
            old(self).wf(),
        ensures
            final(self).wf(),
            !old(self)@.contains_key(id) ==> r is NoSession && final(self)@ == old(self)@,
            old(self)@.contains_key(id) ==> ({
                let m = old(self)@[id];
                if m.inbound.len() > 0 {
                    (r matches RecvOutcome::Item(v) && v == m.inbound[0]) && final(self)@
                        == old(self)@.insert(id, with_inbound(m, m.inbound.drop_first()))
                } else {
                    final(self)@ == old(self)@ && (if m.inbound_closed {
                        r is Done
                    } else {
                        r is Empty
                    })
                }
            }),
    {
        let found = self.find_index(id);
        match found {
            None => RecvOutcome::NoSession,
            Some(i) => {
                proof {
                    lemma_seq_map_index(self.sessions@, i as int);
                }
                let sess = &mut self.sessions[i];
                let r = sess.inbound.pop();
                proof {
                    lemma_seq_map_update(
                        old(self).sessions@,
                        i as int,
                        self.sessions@[i as int],
                    );
                    let m = old(self)@[id];
                    if m.inbound.len() > 0 {
                        assert(self.sessions@[i as int].model() =~= with_inbound(
                            m,
                            m.inbound.drop_first(),
                        ));
                    } else {
                        assert(self.sessions@[i as int].model() =~= m);
                        assert(self@ =~= old(self)@);
                    }
                }
                match r {
                    PopOutcome::Item(v) => RecvOutcome::Item(v),
                    PopOutcome::Empty => RecvOutcome::Empty,
                    PopOutcome::Done => RecvOutcome::Done,
                }
            },
        }
    }

    /// Marks the client-to-backend direction closed: the backend will
    /// accept no more submissions for this session.
    pub fn close_inbound(&mut self, id: u64)
        requires
            old(self).wf(),
        ensures
            final(self).wf(),
            !old(self)@.contains_key(id) ==> final(self)@ == old(self)@,
            old(self)@.contains_key(id) ==> final(self)@ == old(self)@.insert(
                id,
                SessionModel { inbound_closed: true, ..old(self)@[id] },
            ),
    {
        let found = self.find_index(id);
        match found {
            None => {},
            Some(i) => {
                proof {
                    lemma_seq_map_index(self.sessions@, i as int);
                }
                let sess = &mut self.sessions[i];
                sess.inbound.close();
                proof {
                    lemma_seq_map_update(
                        old(self).sessions@,
                        i as int,
                        self.sessions@[i as int],
                    );
                    assert(self.sessions@[i as int].model() =~= SessionModel {
                        inbound_closed: true,
                        ..old(self)@[id]
                    });
                }
            },
        }
    }

    /// Reports whether fresh identifiers are still available.
    pub fn ids_available(&self) -> (b: bool)
        ensures
            b == self.can_create(),
    {
        self.next_id < u64::MAX
    }

    /// Enqueues a backend message onto a session's outbound channel,
    /// marked with the next resumption id in issue order.
    pub fn push_outbound(&mut self, id: u64, message: T) -> (r: SendOutcome<T>)
        requires
            old(self).wf(),
        ensures
            final(self).wf(),
            !old(self)@.contains_key(id) ==> (r matches SendOutcome::NoSession(w) && w
                == message) && final(self)@ == old(self)@,
            old(self)@.contains_key(id) ==> ({
                let m = old(self)@[id];
                if m.outbound_closed || m.next_event_id == u64::MAX {
                    (r matches SendOutcome::Refused(w) && w == message)
                        && final(self)@ == old(self)@
                } else if m.outbound.len() >= CHANNEL_CAPACITY {
                    (r matches SendOutcome::Full(w) && w == message)
                        && final(self)@ == old(self)@
                } else {
                    r is Sent && final(self)@ == old(self)@.insert(
                        id,
                        with_outbound(
                            m,
                            m.outbound.push(
                                Envelope { message, resumption_id: Some(m.next_event_id) },
                            ),
                            (m.next_event_id + 1) as u64,
                        ),
                    )
                }
            }),
    {
        let found = self.find_index(id);
        match found {
            None => SendOutcome::NoSession(message),
            Some(i) => {
                proof {
                    lemma_seq_map_index(self.sessions@, i as int);
                }
                let sess = &mut self.sessions[i];
                if sess.next_event_id == u64::MAX {
                    proof {
                        lemma_seq_map_update(
                            old(self).sessions@,
                            i as int,
                            self.sessions@[i as int],
                        );
                        assert(self@ =~= old(self)@);
                    }
                    return SendOutcome::Refused(message);
                }
                let eid = sess.next_event_id;
                let r = sess.outbound.push(Envelope { message, resumption_id: Some(eid) });
                let sent = matches!(r, PushOutcome::Pushed);
                if sent {
                    sess.next_event_id = eid + 1;
                }
                proof {
                    let m = old(self)@[id];
                    let sess2 = self.sessions@[i as int];
                    if !m.outbound_closed && m.outbound.len() < CHANNEL_CAPACITY {
                        assert(sess2.model() =~= with_outbound(
                            m,
                            m.outbound.push(
                                Envelope { message, resumption_id: Some(m.next_event_id) },
                            ),
                            (m.next_event_id + 1) as u64,
                        ));
                        assert(events_in_issue_order(sess2.model()));
                    } else {
                        assert(sess2.model() =~= m);
                    }
                    lemma_seq_map_update(old(self).sessions@, i as int, sess2);
                    if m.outbound_closed || m.outbound.len() >= CHANNEL_CAPACITY {
                        assert(self@ =~= old(self)@);
                    }
                }
                match r {
                    PushOutcome::Pushed => SendOutcome::Sent,
                    PushOutcome::Full(e) => SendOutcome::Full(e.message),
                    PushOutcome::Refused(e) => SendOutcome::Refused(e.message),
                }
            },
        }
    }

    /// Enqueues a backend message without a resumption id: the legacy
    /// variant has no resumption semantics.
    pub fn push_outbound_plain(&mut self, id: u64, message: T) -> (r: SendOutcome<T>)
        requires
            old(self).wf(),
        ensures
            final(self).wf(),
            !old(self)@.contains_key(id) ==> (r matches SendOutcome::NoSession(w) && w
                == message) && final(self)@ == old(self)@,
            old(self)@.contains_key(id) ==> ({
                let m = old(self)@[id];
                if m.outbound_closed {
                    (r matches SendOutcome::Refused(w) && w == message)
                        && final(self)@ == old(self)@
                } else if m.outbound.len() >= CHANNEL_CAPACITY {
                    (r matches SendOutcome::Full(w) && w == message)
                        && final(self)@ == old(self)@
                } else {
                    r is Sent && final(self)@ == old(self)@.insert(
                        id,
                        with_outbound(
                            m,
                            m.outbound.push(Envelope { message, resumption_id: None }),
                            m.next_event_id,
                        ),
                    )
                }
            }),
    {
        let found = self.find_index(id);
        match found {
            None => SendOutcome::NoSession(message),
            Some(i) => {
                proof {
                    lemma_seq_map_index(self.sessions@, i as int);
                }
                let sess = &mut self.sessions[i];
                let r = sess.outbound.push(Envelope { message, resumption_id: None });
                proof {
                    let m = old(self)@[id];
                    let sess2 = self.sessions@[i as int];
                    if !m.outbound_closed && m.outbound.len() < CHANNEL_CAPACITY {
                        assert(sess2.model() =~= with_outbound(
                            m,
                            m.outbound.push(Envelope { message, resumption_id: None }),
                            m.next_event_id,
                        ));
                        assert(events_in_issue_order(sess2.model()));
                    } else {
                        assert(sess2.model() =~= m);
                    }
                    lemma_seq_map_update(old(self).sessions@, i as int, sess2);
                    if m.outbound_closed || m.outbound.len() >= CHANNEL_CAPACITY {
                        assert(self@ =~= old(self)@);
                    }
                }
                match r {
                    PushOutcome::Pushed => SendOutcome::Sent,
                    PushOutcome::Full(e) => SendOutcome::Full(e.message),
                    PushOutcome::Refused(e) => SendOutcome::Refused(e.message),
                }
            },
        }
    }

    /// Dequeues the next outbound envelope for an attached stream.
    pub fn pop_outbound(&mut self, id: u64) -> (r: RecvOutcome<Envelope<T>>)
        requires
            old(self).wf(),
        ensures
            final(self).wf(),
            !old(self)@.contains_key(id) ==> r is NoSession && final(self)@ == old(self)@,
            old(self)@.contains_key(id) ==> ({
                let m = old(self)@[id];
                if m.outbound.len() > 0 {
                    (r matches RecvOutcome::Item(v) && v == m.outbound[0]) && final(self)@
                        == old(self)@.insert(
                        id,
                        with_outbound(m, m.outbound.drop_first(), m.next_event_id),
                    )
                } else {
                    final(self)@ == old(self)@ && (if m.outbound_closed {
                        r is Done
                    } else {
                        r is Empty
                    })
                }
            }),
    {
        let found = self.find_index(id);
        match found {
            None => RecvOutcome::NoSession,
            Some(i) => {
                proof {
                    lemma_seq_map_index(self.sessions@, i as int);
                }
                let sess = &mut self.sessions[i];
                let r = sess.outbound.pop();
                proof {
                    let m = old(self)@[id];
                    let sess2 = self.sessions@[i as int];
                    if m.outbound.len() > 0 {
                        assert(sess2.model() =~= with_outbound(
                            m,
                            m.outbound.drop_first(),
                            m.next_event_id,
                        ));
                        assert(events_in_issue_order(sess2.model())) by {
                            assert(forall|k: int|
                                0 <= k < m.outbound.len() - 1
                                    ==> #[trigger] m.outbound.drop_first()[k]
                                    == m.outbound[k + 1]);
                        }
                    } else {
                        assert(sess2.model() =~= m);
                    }
                    lemma_seq_map_update(old(self).sessions@, i as int, sess2);
                    if m.outbound.len() == 0 {
                        assert(self@ =~= old(self)@);
                    }
                }
                match r {
                    PopOutcome::Item(v) => RecvOutcome::Item(v),
                    PopOutcome::Empty => RecvOutcome::Empty,
                    PopOutcome::Done => RecvOutcome::Done,
                }
            },
        }
    }

    /// Marks the backend-to-client direction closed: attached streams
    /// drain what is queued and then observe end of stream.
    pub fn close_outbound(&mut self, id: u64)
        requires
            old(self).wf(),
        ensures
            final(self).wf(),
            !old(self)@.contains_key(id) ==> final(self)@ == old(self)@,
            old(self)@.contains_key(id) ==> final(self)@ == old(self)@.insert(
                id,
                SessionModel { outbound_closed: true, ..old(self)@[id] },
            ),
    {
        let found = self.find_index(id);
        match found {
            None => {},
            Some(i) => {
                proof {
                    lemma_seq_map_index(self.sessions@, i as int);
                }
                let sess = &mut self.sessions[i];
                sess.outbound.close();
                proof {
                    lemma_seq_map_update(
                        old(self).sessions@,
                        i as int,
                        self.sessions@[i as int],
                    );
                    assert(self.sessions@[i as int].model() =~= SessionModel {
                        outbound_closed: true,
                        ..old(self)@[id]
                    });
                }
            },
        }
    }
}

/// Whether a reconnecting client that replays after `resume_after`
/// has already seen this envelope.
pub open spec fn already_seen<T>(e: Envelope<T>, resume_after: Option<u64>) -> bool {
    match resume_after {
        Some(a) => match e.resumption_id {
            Some(eid) => eid <= a,
            None => false,
        },
        None => false,
    }
}

/// The outbound channel as a resuming client sees it: the leading
/// already-seen envelopes are skipped, nothing else changes.
pub open spec fn drop_seen<T>(q: Seq<Envelope<T>>, resume_after: Option<u64>) -> Seq<
    Envelope<T>,
>
    decreases q.len(),
{
    if q.len() > 0 && already_seen(q[0], resume_after) {
        drop_seen(q.drop_first(), resume_after)
    } else {
        q
    }
}

/// Resumption only skips a prefix: what remains is a suffix of the
/// channel, in the original order — no reordering, no new events.
pub proof fn lemma_drop_seen_suffix<T>(q: Seq<Envelope<T>>, resume_after: Option<u64>)
    ensures
        drop_seen(q, resume_after).len() <= q.len(),
        drop_seen(q, resume_after) == q.skip(q.len() - drop_seen(q, resume_after).len()),
    decreases q.len(),
{
    if q.len() > 0 && already_seen(q[0], resume_after) {
        lemma_drop_seen_suffix(q.drop_first(), resume_after);
        let k = q.len() - drop_seen(q, resume_after).len();
        assert(q.drop_first().skip(k - 1) =~= q.skip(k));
    } else {
        assert(q.skip(0int) =~= q);
    }
}

/// What remains after resumption starts with an unseen envelope.
pub proof fn lemma_drop_seen_head_unseen<T>(q: Seq<Envelope<T>>, resume_after: Option<u64>)
    requires
        drop_seen(q, resume_after).len() > 0,
    ensures
        !already_seen(drop_seen(q, resume_after)[0], resume_after),
    decreases q.len(),
{
    if q.len() > 0 && already_seen(q[0], resume_after) {
        lemma_drop_seen_head_unseen(q.drop_first(), resume_after);
    }
}

/// In any reachable store, a session's marked outbound events stand
/// in strictly increasing id order below the session's counter.
pub proof fn lemma_store_events_ordered<T>(s: &SessionStore<T>, id: u64)
    requires
        s.wf(),
        s@.contains_key(id),
    ensures
        events_in_issue_order(s@[id]),
{
    lemma_seq_map_contains(s.sessions@, id);
    let i = choose|i: int| 0 <= i < s.sessions@.len() && s.sessions@[i].id == id;
    lemma_seq_map_index(s.sessions@, i);
}

/// Ordering at the session: two successive accepted publishes stand
/// in the channel in publish order and carry strictly increasing
/// resumption ids — a consuming stream can neither reorder nor
/// confuse them.
pub proof fn lemma_publish_order<T>(m: SessionModel<T>, x: T, y: T)
    requires
        !m.outbound_closed,
        m.outbound.len() + 1 < CHANNEL_CAPACITY,
        m.next_event_id + 1 < u64::MAX,
    ensures
        ({
            let ex = Envelope { message: x, resumption_id: Some(m.next_event_id) };
            let m1 = with_outbound(m, m.outbound.push(ex), (m.next_event_id + 1) as u64);
            let ey = Envelope { message: y, resumption_id: Some(m1.next_event_id) };
            let m2 = with_outbound(m1, m1.outbound.push(ey), (m1.next_event_id + 1) as u64);
            &&& m2.outbound.len() == m.outbound.len() + 2
            &&& m2.outbound[m.outbound.len() as int].message == x
            &&& m2.outbound[m.outbound.len() as int + 1].message == y
            &&& match (
                m2.outbound[m.outbound.len() as int].resumption_id,
                m2.outbound[m.outbound.len() as int + 1].resumption_id,
            ) {
                (Some(e1), Some(e2)) => e1 < e2,
                _ => false,
            }
        }),
{
}

/// Resumption never replays: on a channel whose envelopes are all
/// marked and stand in issue order — as the bidirectional variant
/// keeps them — everything that remains after resuming past `a`
/// carries an id above `a`, so no event is delivered twice.
pub proof fn lemma_resume_no_duplication<T>(m: SessionModel<T>, a: u64, k: int)
    requires
        events_in_issue_order(m),
        forall|j: int|
            0 <= j < m.outbound.len() ==> (#[trigger] m.outbound[j].resumption_id) is Some,
        0 <= k < drop_seen(m.outbound, Some(a)).len(),
    ensures
        drop_seen(m.outbound, Some(a))[k].resumption_id is Some,
        match drop_seen(m.outbound, Some(a))[k].resumption_id {
            Some(e) => e > a,
            None => false,
        },
{
    let q = m.outbound;
    let rest = drop_seen(q, Some(a));
    lemma_drop_seen_suffix(q, Some(a));
    lemma_drop_seen_head_unseen(q, Some(a));
    let skipped = q.len() - rest.len();
    assert(rest[k] == q[skipped + k]);
    assert(rest[0] == q[skipped + 0]);
    if k > 0 {
        assert(match (q[skipped].resumption_id, q[skipped + k].resumption_id) {
            (Some(e1), Some(e2)) => e1 < e2,
            _ => true,
        });
    }
}

} // verus!
