//! Quote producer: batching between the feed and the channel.
//!
//! The producer consumes the feed client's quote sequence, groups
//! quotes into batches, and offers each batch to the bounded channel.
//! It never discards a quote: every quote handed to the batcher is in
//! the batch it emits or still pending, and a batch refused by a full
//! channel stays with the producer to be offered again.

use vstd::prelude::*;

use crate::channel::batch_model;
use crate::quote::Quote;
use crate::quote::QuoteModel;

verus! {

/// Groups quotes into transport batches of a fixed maximal size.
pub struct Batcher {
    pending: Vec<Quote>,
    max_batch: usize,
}

impl View for Batcher {
    type V = Seq<QuoteModel>;

    closed spec fn view(&self) -> Seq<QuoteModel> {
        batch_model(self.pending)
    }
}

impl Batcher {
    /// The batch size this batcher fills up to.
    pub closed spec fn spec_max_batch(&self) -> usize {
        self.max_batch
    }

    /// Fewer quotes pending than one full batch.
    pub open spec fn wf(&self) -> bool {
        &&& self.spec_max_batch() >= 1
        &&& self@.len() < self.spec_max_batch()
    }

    /// An empty batcher.
    pub fn new(max_batch: usize) -> (b: Batcher)
        requires
            max_batch >= 1,
        ensures
            b.wf(),
            b.spec_max_batch() == max_batch,
            b@ == Seq::<QuoteModel>::empty(),
    {
        let b = Batcher { pending: Vec::new(), max_batch };
        proof {
            assert(b@ =~= Seq::<QuoteModel>::empty());
        }
        b
    }

    /// Take in one quote. When the quote completes a batch, the batch
    /// comes out, holding every pending quote and then this one, in
    /// arrival order; otherwise the quote joins the pending ones.
    /// Either way no quote is lost.
    pub fn add(&mut self, q: Quote) -> (r: Option<Vec<Quote>>)
        requires
            old(self).wf(),
        ensures
            final(self).wf(),
            final(self).spec_max_batch() == old(self).spec_max_batch(),
            r matches Some(b) ==> batch_model(b) == old(self)@.push(q@) && final(self)@
                == Seq::<QuoteModel>::empty() && old(self)@.len() + 1 == old(self).spec_max_batch(),
            r is None ==> final(self)@ == old(self)@.push(q@) && old(self)@.len() + 1 < old(
                self,
            ).spec_max_batch(),
    {
        let ghost before = self@;
        self.pending.push(q);
        proof {
            assert(self@ =~= before.push(q@));
        }
        if self.pending.len() == self.max_batch {
            let full = self.pending.split_off(0);
            proof {
                assert(self@ =~= Seq::<QuoteModel>::empty());
            }
            Some(full)
        } else {
            None
        }
    }

    /// Hand out whatever is pending, in arrival order, leaving the
    /// batcher empty. The coalescing window closes through this.
    pub fn flush(&mut self) -> (r: Vec<Quote>)
        requires
            old(self).wf(),
        ensures
            final(self).wf(),
            final(self).spec_max_batch() == old(self).spec_max_batch(),
            batch_model(r) == old(self)@,
            final(self)@ == Seq::<QuoteModel>::empty(),
    {
        let out = self.pending.split_off(0);
        proof {
            assert(self@ =~= Seq::<QuoteModel>::empty());
        }
        out
    }
}

} // verus!
