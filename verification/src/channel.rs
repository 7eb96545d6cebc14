//! The bounded FIFO channel: the sole inter-task communication
//! mechanism of the session pipeline. This is the channel's state model:
//! an attempted enqueue on a full channel reports `Full` and leaves the
//! channel untouched — the asynchronous driver suspends the producer and
//! retries once a dequeue has freed space.

use vstd::prelude::*;

verus! {

/// Outcome of an attempted enqueue.
#[derive(Clone, Copy, Debug, PartialEq, Eq)]
pub enum SendStatus {
    /// The value was appended at the back of the queue.
    Sent,
    /// The channel was at capacity; nothing changed and the producer
    /// must wait for a dequeue.
    Full,
    /// The consumer is gone; nothing changed and the session must end.
    Closed,
}

/// The queue and status an attempted enqueue leaves behind.
pub open spec fn spec_try_send<T>(q: Seq<T>, cap: nat, closed: bool, v: T) -> (Seq<T>, SendStatus) {
    if closed {
        (q, SendStatus::Closed)
    } else if q.len() >= cap {
        (q, SendStatus::Full)
    } else {
        (q.push(v), SendStatus::Sent)
    }
}

/// The queue and value a dequeue leaves behind: the front value leaves
/// first; an empty queue yields nothing.
pub open spec fn spec_recv<T>(q: Seq<T>) -> (Seq<T>, Option<T>) {
    if q.len() == 0 {
        (q, None)
    } else {
        (q.drop_first(), Some(q[0]))
    }
}

/// An ordered, bounded FIFO queue of messages with a fixed capacity.
pub struct MessageChannel<T> {
    queue: Vec<T>,
    capacity: usize,
    closed: bool,
}

impl<T> MessageChannel<T> {
    /// The queued messages, front first.
    pub closed spec fn contents(self) -> Seq<T> {
        self.queue@
    }

    /// The fixed capacity the channel was created with.
    pub closed spec fn cap(self) -> nat {
        self.capacity as nat
    }

    /// Whether the consumer side has gone away.
    pub closed spec fn is_closed(self) -> bool {
        self.closed
    }

    /// The channel never holds more than its capacity.
    pub open spec fn wf(self) -> bool {
        self.contents().len() <= self.cap() && self.cap() >= 1
    }

    /// A fresh, open, empty channel of the given capacity.
    pub fn new(capacity: usize) -> (r: MessageChannel<T>)
        requires
            capacity >= 1,
        ensures
            r.wf(),
            r.contents() == Seq::<T>::empty(),
            r.cap() == capacity as nat,
            !r.is_closed(),
    {
        MessageChannel { queue: Vec::new(), capacity, closed: false }
    }

    /// Number of messages currently queued.
    pub fn len(&self) -> (n: usize)
        ensures
            n == self.contents().len(),
    {
        self.queue.len()
    }

    /// The fixed capacity.
    pub fn capacity(&self) -> (n: usize)
        ensures
            n as nat == self.cap(),
    {
        self.capacity
    }

    /// Attempt to enqueue `v` at the back. On `Full` or `Closed` the
    /// channel is left exactly as it was: nothing is dropped, nothing is
    /// reordered.
    pub fn try_send(&mut self, v: T) -> (r: SendStatus)
        requires
            old(self).wf(),
        ensures
            final(self).wf(),
            final(self).cap() == old(self).cap(),
            final(self).is_closed() == old(self).is_closed(),
            (final(self).contents(), r) == spec_try_send(
                old(self).contents(),
                old(self).cap(),
                old(self).is_closed(),
                v,
            ),
    {
        if self.closed {
            SendStatus::Closed
        } else if self.queue.len() >= self.capacity {
            SendStatus::Full
        } else {
            self.queue.push(v);
            SendStatus::Sent
        }
    }

    /// Enqueue on a channel known to have room: the caller has already
    /// waited out any backpressure.
    pub fn send(&mut self, v: T)
        requires
            old(self).wf(),
            !old(self).is_closed(),
            old(self).contents().len() < old(self).cap(),
        ensures
            final(self).wf(),
            final(self).cap() == old(self).cap(),
            !final(self).is_closed(),
            final(self).contents() == old(self).contents().push(v),
    {
        self.queue.push(v);
    }

    /// Dequeue the front message; yields nothing when the queue is
    /// empty (the asynchronous driver then suspends the consumer, or
    /// stops it for good once the channel is also closed).
    pub fn recv(&mut self) -> (r: Option<T>)
        requires
            old(self).wf(),
        ensures
            final(self).wf(),
            final(self).cap() == old(self).cap(),
            final(self).is_closed() == old(self).is_closed(),
            (final(self).contents(), r) == spec_recv(old(self).contents()),
    {
        if self.queue.len() == 0 {
            None
        } else {
            Some(self.queue.remove(0))
        }
    }

    /// Mark the consumer as gone: later enqueues report `Closed`.
    pub fn close(&mut self)
        requires
            old(self).wf(),
        ensures
            final(self).wf(),
            final(self).cap() == old(self).cap(),
            final(self).contents() == old(self).contents(),
            final(self).is_closed(),
    {
        self.closed = true;
    }
}

/// Channel FIFO: enqueuing v1, v2, v3 in that order from one producer
/// onto an empty open channel with room, then dequeuing three times,
/// yields v1, v2, v3 in that order and leaves the channel empty.
pub proof fn lemma_channel_fifo<T>(q: Seq<T>, cap: nat, v1: T, v2: T, v3: T)
    requires
        q.len() == 0,
        cap >= 3,
    ensures
        ({
            let (q1, s1) = spec_try_send(q, cap, false, v1);
            let (q2, s2) = spec_try_send(q1, cap, false, v2);
            let (q3, s3) = spec_try_send(q2, cap, false, v3);
            let (r1, d1) = spec_recv(q3);
            let (r2, d2) = spec_recv(r1);
            let (r3, d3) = spec_recv(r2);
            s1 == SendStatus::Sent && s2 == SendStatus::Sent && s3 == SendStatus::Sent && d1
                == Some(v1) && d2 == Some(v2) && d3 == Some(v3) && r3.len() == 0
        }),
{
    let q3 = q.push(v1).push(v2).push(v3);
    assert(q3 =~= seq![v1, v2, v3]);
    assert(q3.drop_first() =~= seq![v2, v3]);
    assert(q3.drop_first().drop_first() =~= seq![v3]);
    assert(q3.drop_first().drop_first().drop_first() =~= Seq::<T>::empty());
}

/// Backpressure: an enqueue onto a channel at capacity does not go
/// through and drops or reorders nothing; after one dequeue has freed
/// space, the same enqueue is accepted at the back, behind every message
/// that was already queued.
pub proof fn lemma_backpressure<T>(q: Seq<T>, cap: nat, v: T)
    requires
        q.len() == cap,
        cap >= 1,
    ensures
        ({
            let (qf, sf) = spec_try_send(q, cap, false, v);
            let (qr, d) = spec_recv(qf);
            let (qs, ss) = spec_try_send(qr, cap, false, v);
            sf == SendStatus::Full && qf == q && d == Some(q[0]) && ss == SendStatus::Sent && qs
                == q.drop_first().push(v)
        }),
{
}

} // verus!
