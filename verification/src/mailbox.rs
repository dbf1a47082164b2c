//! The bounded FIFO owned by each actor.
//!
//! The capacity governs the non-blocking path: `try_send` reports `Full` at
//! capacity. A blocking `send` is modeled after its wait completed, so it
//! enqueues whenever the mailbox is open. Close is idempotent; after close,
//! sends fail with `Closed` and receiving drains the remaining items before
//! yielding "end".

use vstd::prelude::*;

use crate::envelope::{envelopes_view, Envelope, EnvelopeView};
use crate::errors::{SendError, TryRecvError, TrySendError};

verus! {

#[derive(Debug)]
pub struct Mailbox {
    items: Vec<Envelope>,
    capacity: usize,
    closed: bool,
}

impl Mailbox {
    /// The queued envelopes, oldest first.
    pub closed spec fn queue(self) -> Seq<EnvelopeView> {
        envelopes_view(self.items@)
    }

    pub closed spec fn spec_capacity(self) -> usize {
        self.capacity
    }

    pub closed spec fn spec_closed(self) -> bool {
        self.closed
    }

    pub fn new(capacity: usize) -> (m: Mailbox)
        ensures
            m.queue() == Seq::<EnvelopeView>::empty(),
            m.spec_capacity() == capacity,
            !m.spec_closed(),
    {
        let m = Mailbox { items: Vec::new(), capacity, closed: false };
        proof {
            assert(m.queue() =~= Seq::<EnvelopeView>::empty());
        }
        m
    }

    pub fn len(&self) -> (n: usize)
        ensures
            n == self.queue().len(),
    {
        self.items.len()
    }

    pub fn is_closed(&self) -> (r: bool)
        ensures
            r == self.spec_closed(),
    {
        self.closed
    }

    /// Non-blocking send: `Closed` wins over `Full`; on success the envelope
    /// is appended, so successful sends appear in the queue in send order.
    pub fn try_send(&mut self, envelope: Envelope) -> (r: Result<(), TrySendError<Envelope>>)
        ensures
            final(self).spec_capacity() == old(self).spec_capacity(),
            final(self).spec_closed() == old(self).spec_closed(),
            match r {
                Ok(()) => {
                    &&& !old(self).spec_closed()
                    &&& old(self).queue().len() < old(self).spec_capacity()
                    &&& final(self).queue() == old(self).queue().push(envelope@)
                },
                Err(TrySendError::Closed(e)) => {
                    &&& old(self).spec_closed()
                    &&& e@ == envelope@
                    &&& final(self).queue() == old(self).queue()
                },
                Err(TrySendError::Full(e)) => {
                    &&& !old(self).spec_closed()
                    &&& old(self).queue().len() >= old(self).spec_capacity()
                    &&& e@ == envelope@
                    &&& final(self).queue() == old(self).queue()
                },
            },
    {
        if self.closed {
            Err(TrySendError::Closed(envelope))
        } else if self.items.len() >= self.capacity {
            Err(TrySendError::Full(envelope))
        } else {
            let ghost before = self.queue();
            self.items.push(envelope);
            proof {
                assert(self.queue() =~= before.push(envelope@));
            }
            Ok(())
        }
    }

    /// Blocking send, modeled after its wait completed: it enqueues whenever
    /// the mailbox is open and fails only with `Closed`.
    pub fn send(&mut self, envelope: Envelope) -> (r: Result<(), SendError<Envelope>>)
        ensures
            final(self).spec_capacity() == old(self).spec_capacity(),
            final(self).spec_closed() == old(self).spec_closed(),
            match r {
                Ok(()) => {
                    &&& !old(self).spec_closed()
                    &&& final(self).queue() == old(self).queue().push(envelope@)
                },
                Err(SendError(e)) => {
                    &&& old(self).spec_closed()
                    &&& e@ == envelope@
                    &&& final(self).queue() == old(self).queue()
                },
            },
    {
        if self.closed {
            Err(SendError(envelope))
        } else {
            let ghost before = self.queue();
            self.items.push(envelope);
            proof {
                assert(self.queue() =~= before.push(envelope@));
            }
            Ok(())
        }
    }

    /// Non-blocking receive: the oldest envelope leaves first; a closed and
    /// drained mailbox reports `Closed`, an open empty one `Empty`.
    pub fn try_recv(&mut self) -> (r: Result<Envelope, TryRecvError>)
        ensures
            final(self).spec_capacity() == old(self).spec_capacity(),
            final(self).spec_closed() == old(self).spec_closed(),
            match r {
                Ok(e) => {
                    &&& old(self).queue().len() > 0
                    &&& e@ == old(self).queue()[0]
                    &&& final(self).queue() == old(self).queue().drop_first()
                },
                Err(TryRecvError::Closed) => {
                    &&& old(self).queue().len() == 0
                    &&& old(self).spec_closed()
                    &&& final(self).queue() == old(self).queue()
                },
                Err(TryRecvError::Empty) => {
                    &&& old(self).queue().len() == 0
                    &&& !old(self).spec_closed()
                    &&& final(self).queue() == old(self).queue()
                },
            },
    {
        if self.items.len() > 0 {
            let ghost before = self.queue();
            let e = self.items.remove(0);
            proof {
                assert(self.queue() =~= before.drop_first());
            }
            Ok(e)
        } else if self.closed {
            Err(TryRecvError::Closed)
        } else {
            Err(TryRecvError::Empty)
        }
    }

    /// Idempotent close; returns true only on the transition open -> closed.
    /// Queued envelopes stay and can still be drained.
    pub fn close(&mut self) -> (r: bool)
        ensures
            final(self).spec_capacity() == old(self).spec_capacity(),
            final(self).spec_closed(),
            final(self).queue() == old(self).queue(),
            r == !old(self).spec_closed(),
    {
        let was_open = !self.closed;
        self.closed = true;
        was_open
    }
}

/// Messages delivered to an actor appear in mailbox order: enqueues append,
/// so an earlier send stands before a later one, and the queue below both is
/// untouched; dequeues take the front.
pub proof fn lemma_mailbox_fifo(q: Seq<EnvelopeView>, a: EnvelopeView, b: EnvelopeView)
    ensures
        ({
            let q2 = q.push(a).push(b);
            &&& q2[q.len() as int] == a
            &&& q2[q.len() as int + 1] == b
            &&& forall|i: int| 0 <= i < q.len() ==> q2[i] == q[i]
        }),
{
}

} // verus!
