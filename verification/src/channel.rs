//! Bounded FIFO channel model.
//!
//! The producer and receiver tasks are joined by one single-producer,
//! single-consumer bounded channel of quote batches. The bound is the
//! pipeline's backpressure: once it is reached a send does not
//! enqueue, and the batch is handed back to the producer to hold on
//! to rather than being dropped. Batches come out in the order they
//! went in.

use vstd::prelude::*;

use crate::quote::Quote;
use crate::quote::QuoteModel;

verus! {

/// A batch as delivered across the channel.
pub open spec fn batch_model(b: Vec<Quote>) -> Seq<QuoteModel> {
    b@.map_values(|q: Quote| q@)
}

/// Outcome of a non-blocking send.
pub enum SendOutcome {
    /// The batch was enqueued.
    Sent,
    /// The channel is at capacity; the batch comes back to the caller
    /// untouched, to be offered again once the receiver drains.
    Full(Vec<Quote>),
}

/// A bounded FIFO queue of quote batches.
pub struct BoundedChannel {
    queue: Vec<Vec<Quote>>,
    capacity: usize,
}

impl View for BoundedChannel {
    type V = Seq<Seq<QuoteModel>>;

    closed spec fn view(&self) -> Seq<Seq<QuoteModel>> {
        self.queue@.map_values(|b: Vec<Quote>| batch_model(b))
    }
}

impl BoundedChannel {
    /// The bound the channel was created with.
    pub closed spec fn spec_capacity(&self) -> usize {
        self.capacity
    }

    /// The queue never exceeds its bound.
    pub open spec fn wf(&self) -> bool {
        &&& self.spec_capacity() >= 1
        &&& self@.len() <= self.spec_capacity()
    }

    /// An empty channel with the given bound.
    pub fn new(capacity: usize) -> (c: BoundedChannel)
        requires
            capacity >= 1,
        ensures
            c.wf(),
            c.spec_capacity() == capacity,
            c@ == Seq::<Seq<QuoteModel>>::empty(),
    {
        let c = BoundedChannel { queue: Vec::new(), capacity };
        proof {
            assert(c@ =~= Seq::<Seq<QuoteModel>>::empty());
        }
        c
    }

    /// Number of queued batches.
    pub fn len(&self) -> (n: usize)
        ensures
            n == self@.len(),
    {
        self.queue.len()
    }

    /// Offer a batch. If the channel is below its bound the batch is
    /// enqueued at the back; at the bound nothing is enqueued and the
    /// very batch is returned, so no batch is ever dropped.
    pub fn try_send(&mut self, batch: Vec<Quote>) -> (r: SendOutcome)
        requires
            old(self).wf(),
        ensures
            final(self).wf(),
            final(self).spec_capacity() == old(self).spec_capacity(),
            old(self)@.len() < old(self).spec_capacity() ==> final(self)@ == old(self)@.push(
                batch_model(batch),
            ) && (r is Sent),
            old(self)@.len() >= old(self).spec_capacity() ==> final(self)@ == old(self)@ && (
            r matches SendOutcome::Full(b) && batch_model(b) == batch_model(batch) && b == batch),
    {
        if self.queue.len() < self.capacity {
            let ghost before = self@;
            self.queue.push(batch);
            proof {
                assert(self@ =~= before.push(batch_model(batch)));
            }
            SendOutcome::Sent
        } else {
            SendOutcome::Full(batch)
        }
    }

    /// Take the oldest queued batch, if any: first in, first out.
    pub fn recv(&mut self) -> (r: Option<Vec<Quote>>)
        requires
            old(self).wf(),
        ensures
            final(self).wf(),
            final(self).spec_capacity() == old(self).spec_capacity(),
            old(self)@.len() == 0 ==> r is None && final(self)@ == old(self)@,
            old(self)@.len() > 0 ==> (r matches Some(b) && batch_model(b) == old(self)@[0]
                && final(self)@ == old(self)@.drop_first()),
    {
        if self.queue.len() == 0 {
            None
        } else {
            let ghost before = self@;
            let b = self.queue.remove(0);
            proof {
                assert(self@ =~= before.drop_first());
            }
            Some(b)
        }
    }
}

} // verus!
