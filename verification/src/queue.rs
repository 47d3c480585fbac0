//! The bounded FIFO queue that forms one direction of a session's
//! duplex channel. Capacity is fixed at construction; a closed queue
//! refuses new items but still drains the ones it holds.

use vstd::prelude::*;

verus! {

/// Capacity of every per-session channel.
pub const CHANNEL_CAPACITY: usize = 64;

/// One direction of a session's duplex channel.
pub struct BoundedQueue<T> {
    items: Vec<T>,
    capacity: usize,
    closed: bool,
}

/// Result of an enqueue. A refused item is handed back untouched, so
/// the producer can hold on to it: nothing is ever dropped.
pub enum PushOutcome<T> {
    /// The item was appended at the tail.
    Pushed,
    /// The queue is at capacity; the item is returned.
    Full(T),
    /// The queue is closed; the item is returned.
    Refused(T),
}

/// Result of a dequeue.
pub enum PopOutcome<T> {
    /// The item that was at the head.
    Item(T),
    /// Nothing queued, but the queue is still open.
    Empty,
    /// Nothing queued and the queue is closed: end of stream.
    Done,
}

/// Effect of one enqueue on the queue's contents, `None` when the
/// queue is at capacity.
pub open spec fn spec_push<T>(q: Seq<T>, cap: nat, v: T) -> Option<Seq<T>> {
    if q.len() < cap {
        Some(q.push(v))
    } else {
        None
    }
}

/// Effect of enqueueing a batch, front first.
pub open spec fn spec_push_all<T>(q: Seq<T>, cap: nat, vs: Seq<T>) -> Option<Seq<T>>
    decreases vs.len(),
{
    if vs.len() == 0 {
        Some(q)
    } else {
        match spec_push(q, cap, vs[0]) {
            Some(q2) => spec_push_all(q2, cap, vs.drop_first()),
            None => None,
        }
    }
}

/// The items a consumer sees after `k` dequeues from contents `q`.
pub open spec fn observed<T>(q: Seq<T>, k: nat) -> Seq<T>
    decreases k,
{
    if k == 0 || q.len() == 0 {
        Seq::empty()
    } else {
        seq![q[0]] + observed(q.drop_first(), (k - 1) as nat)
    }
}

impl<T> BoundedQueue<T> {
    /// The queued items, head first.
    pub closed spec fn contents(self) -> Seq<T> {
        self.items@
    }

    pub closed spec fn cap(self) -> nat {
        self.capacity as nat
    }

    pub closed spec fn is_closed(self) -> bool {
        self.closed
    }

    pub open spec fn wf(self) -> bool {
        self.contents().len() <= self.cap() && self.cap() >= 1
    }

    pub fn new(capacity: usize) -> (q: Self)
        requires
            capacity >= 1,
        ensures
            q.wf(),
            q.contents() == Seq::<T>::empty(),
            q.cap() == capacity,
            !q.is_closed(),
    {
        BoundedQueue { items: Vec::new(), capacity, closed: false }
    }

    pub fn len(&self) -> (n: usize)
        ensures
            n == self.contents().len(),
    {
        self.items.len()
    }

    /// Appends at the tail, or hands the item back if the queue is
    /// full (backpressure) or closed.
    pub fn push(&mut self, v: T) -> (r: PushOutcome<T>)
        requires
            old(self).wf(),
        ensures
            final(self).wf(),
            final(self).cap() == old(self).cap(),
            final(self).is_closed() == old(self).is_closed(),
            old(self).is_closed() ==> (r matches PushOutcome::Refused(w) && w == v)
                && final(self).contents() == old(self).contents(),
            !old(self).is_closed() ==> match spec_push(
                old(self).contents(),
                old(self).cap(),
                v,
            ) {
                Some(q2) => r is Pushed && final(self).contents() == q2,
                None => (r matches PushOutcome::Full(w) && w == v)
                    && final(self).contents() == old(self).contents(),
            },
    {
        if self.closed {
            PushOutcome::Refused(v)
        } else if self.items.len() < self.capacity {
            self.items.push(v);
            PushOutcome::Pushed
        } else {
            PushOutcome::Full(v)
        }
    }

    /// Removes and returns the head item, if any.
    pub fn pop(&mut self) -> (r: PopOutcome<T>)
        requires
            old(self).wf(),
        ensures
            final(self).wf(),
            final(self).cap() == old(self).cap(),
            final(self).is_closed() == old(self).is_closed(),
            old(self).contents().len() > 0 ==> (r matches PopOutcome::Item(v)
                && v == old(self).contents()[0])
                && final(self).contents() == old(self).contents().drop_first(),
            old(self).contents().len() == 0 ==> final(self).contents()
                == old(self).contents() && (if old(self).is_closed() {
                r is Done
            } else {
                r is Empty
            }),
    {
        if self.items.len() > 0 {
            let v = self.items.remove(0);
            proof {
                assert(self.items@ =~= old(self).items@.drop_first());
            }
            PopOutcome::Item(v)
        } else if self.closed {
            PopOutcome::Done
        } else {
            PopOutcome::Empty
        }
    }

    /// Marks the end of the stream; queued items remain drainable.
    pub fn close(&mut self)
        requires
            old(self).wf(),
        ensures
            final(self).wf(),
            final(self).cap() == old(self).cap(),
            final(self).is_closed(),
            final(self).contents() == old(self).contents(),
    {
        self.closed = true;
    }
}

/// Ordering, first half: enqueueing `vs` in order onto a queue with
/// room appends `vs` exactly, in order — no loss, no reordering.
pub proof fn lemma_push_all_in_order<T>(q: Seq<T>, cap: nat, vs: Seq<T>)
    requires
        q.len() + vs.len() <= cap,
    ensures
        spec_push_all(q, cap, vs) == Some(q + vs),
    decreases vs.len(),
{
    if vs.len() == 0 {
        assert(q + vs =~= q);
    } else {
        lemma_push_all_in_order(q.push(vs[0]), cap, vs.drop_first());
        assert(q.push(vs[0]) + vs.drop_first() =~= q + vs);
    }
}

/// Ordering, second half: a single consumer dequeueing `k` times from
/// contents `q` observes precisely the first `k` items of `q`, in
/// order.
pub proof fn lemma_observed_in_order<T>(q: Seq<T>, k: nat)
    requires
        k <= q.len(),
    ensures
        observed(q, k) == q.take(k as int),
    decreases k,
{
    if k == 0 {
        assert(observed(q, k) =~= q.take(0int));
    } else {
        lemma_observed_in_order(q.drop_first(), (k - 1) as nat);
        assert(seq![q[0]] + q.drop_first().take(k - 1) =~= q.take(k as int));
    }
}

/// Round trip at the channel: an item enqueued behind `q` is observed
/// again, verbatim, once the consumer reaches it.
pub proof fn lemma_enqueued_observed_verbatim<T>(q: Seq<T>, cap: nat, v: T)
    requires
        q.len() < cap,
    ensures
        spec_push(q, cap, v) == Some(q.push(v)),
        observed(q.push(v), q.len() + 1) == q.push(v),
        observed(q.push(v), q.len() + 1)[q.len() as int] == v,
{
    lemma_observed_in_order(q.push(v), q.len() + 1);
    assert(q.push(v).take(q.len() + 1 as int) =~= q.push(v));
}

/// Backpressure: an enqueue is refused exactly when the queue holds
/// `cap` items, and a refused enqueue changes nothing — the producer
/// must wait; nothing is dropped.
pub proof fn lemma_backpressure<T>(q: Seq<T>, cap: nat, v: T)
    requires
        q.len() <= cap,
    ensures
        spec_push(q, cap, v) is None <==> q.len() == cap,
        spec_push(q, cap, v) is Some ==> spec_push(q, cap, v)->0.len() == q.len() + 1,
{
}

} // verus!
