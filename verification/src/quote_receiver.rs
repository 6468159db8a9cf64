//! Quote receiver: applying batches and dispatching valuations.
//!
//! The receiver consumes quote batches from the channel, folds each
//! quote into the last-known-price table under the supersession rule,
//! recomputes the portfolio valuation, and dispatches the snapshot to
//! the configured sinks. Sink failures are retried a bounded number
//! of times and then skipped for that snapshot; only a configured run
//! of snapshots on which every sink failed becomes fatal.

use vstd::prelude::*;

use crate::codec::MAX_PRICE_MILLI;
use crate::portfolio::pos_valued;
use crate::portfolio::spec_total;
use crate::portfolio::Portfolio;
use crate::portfolio::Rates;
use crate::portfolio::ValuationSnapshot;
use crate::prices::apply_all;
use crate::prices::lemma_apply_all_preserves_bound;
use crate::prices::price_bounded;
use crate::prices::PriceTable;
use crate::quote::Quote;

verus! {

/// Processing state of the receiver task.
#[derive(Clone, Copy, PartialEq, Eq, Structural, Debug)]
pub enum RecvState {
    /// Waiting for the next batch.
    Idle,
    /// The channel is closed or a fatal sink failure occurred; no
    /// further batch is processed.
    Stopped,
}

/// What the channel side hands the receiver.
pub enum RecvEvent {
    /// One batch of quotes arrived.
    Batch(Vec<Quote>),
    /// The producer closed the channel.
    Closed,
}

/// What the receiver does next.
pub enum RecvAction {
    /// Apply the batch and dispatch a fresh snapshot.
    Process(Vec<Quote>),
    /// Stop the task.
    Stop,
}

/// One receiver transition: a batch is processed while idle; a closed
/// channel stops the task for good.
pub fn recv_step(state: RecvState, event: RecvEvent) -> (r: (RecvState, RecvAction))
    ensures
        state is Stopped ==> r.0 is Stopped && r.1 is Stop,
        state is Idle ==> match event {
            RecvEvent::Batch(b) => r.0 is Idle && (r.1 matches RecvAction::Process(p) && p == b),
            RecvEvent::Closed => r.0 is Stopped && r.1 is Stop,
        },
{
    match (state, event) {
        (RecvState::Idle, RecvEvent::Batch(b)) => (RecvState::Idle, RecvAction::Process(b)),
        (RecvState::Idle, RecvEvent::Closed) => (RecvState::Stopped, RecvAction::Stop),
        (RecvState::Stopped, _) => (RecvState::Stopped, RecvAction::Stop),
    }
}

/// Apply one batch to the price table and compute the snapshot the
/// sinks receive: every quote folded in under the supersession rule,
/// then the valuation of the updated table.
pub fn handle_batch(
    table: &mut PriceTable,
    portfolio: &Portfolio,
    rates: &Rates,
    batch: &Vec<Quote>,
    as_of: u64,
) -> (s: ValuationSnapshot)
    requires
        old(table).wf(),
        price_bounded(old(table)@),
        portfolio.wf(),
        rates.wf(),
        forall|i: int|
            0 <= i < batch@.len() ==> (#[trigger] batch@[i])@.price_milli <= MAX_PRICE_MILLI,
    ensures
        final(table).wf(),
        final(table)@ == apply_all(old(table)@, batch@.map_values(|q: Quote| q@)),
        price_bounded(final(table)@),
        s.positions@.len() == portfolio@.positions.len(),
        forall|i: int|
            0 <= i < portfolio@.positions.len() ==> pos_valued(
                portfolio@.positions[i],
                (#[trigger] s.positions@[i])@,
                final(table)@,
                *rates,
            ),
        s.total_milli == spec_total(portfolio@.positions, final(table)@, *rates),
        s.as_of == as_of,
{
    table.apply_batch(batch);
    proof {
        let qs = batch@.map_values(|q: Quote| q@);
        assert(forall|i: int|
            0 <= i < qs.len() ==> (#[trigger] qs[i]).price_milli <= MAX_PRICE_MILLI);
        lemma_apply_all_preserves_bound(old(table)@, qs);
    }
    crate::portfolio::value(portfolio, table, rates, as_of)
}

/// Sink retry and failure policy.
///
/// A sink write is retried up to `max_attempts` times per snapshot.
/// A snapshot on which every sink failed counts towards a run of
/// consecutive all-sink failures; when a threshold is configured and
/// the run reaches it, the receiver treats the condition as fatal.
/// Without a threshold the condition is never fatal.
pub struct SinkPolicy {
    max_attempts: u32,
    fatal_after: Option<u32>,
    consecutive_failures: u32,
}

impl SinkPolicy {
    /// Attempts allowed per sink write.
    pub closed spec fn spec_max_attempts(&self) -> u32 {
        self.max_attempts
    }

    /// Configured length of the fatal run, if any.
    pub closed spec fn spec_fatal_after(&self) -> Option<u32> {
        self.fatal_after
    }

    /// Current run of snapshots on which every sink failed.
    pub closed spec fn spec_failures(&self) -> u32 {
        self.consecutive_failures
    }

    /// A fresh policy with no failures recorded.
    pub fn new(max_attempts: u32, fatal_after: Option<u32>) -> (p: SinkPolicy)
        ensures
            p.spec_max_attempts() == max_attempts,
            p.spec_fatal_after() == fatal_after,
            p.spec_failures() == 0,
    {
        SinkPolicy { max_attempts, fatal_after, consecutive_failures: 0 }
    }

    /// Whether a failed sink write is tried once more.
    pub fn should_retry(&self, attempts_made: u32) -> (r: bool)
        ensures
            r == (attempts_made < self.spec_max_attempts()),
    {
        attempts_made < self.max_attempts
    }

    /// Record the outcome of dispatching one snapshot. Any sink
    /// success resets the run; an all-sink failure extends it, and
    /// the result says whether the configured fatal threshold is
    /// reached.
    pub fn record_dispatch(&mut self, all_sinks_failed: bool) -> (fatal: bool)
        ensures
            final(self).spec_max_attempts() == old(self).spec_max_attempts(),
            final(self).spec_fatal_after() == old(self).spec_fatal_after(),
            !all_sinks_failed ==> final(self).spec_failures() == 0 && !fatal,
            all_sinks_failed ==> final(self).spec_failures() == (if old(self).spec_failures()
                < 0xFFFF_FFFFu32 {
                (old(self).spec_failures() + 1) as u32
            } else {
                old(self).spec_failures()
            }),
            all_sinks_failed ==> fatal == (final(self).spec_fatal_after() matches Some(n)
                && final(self).spec_failures() >= n),
    {
        if !all_sinks_failed {
            self.consecutive_failures = 0;
            return false;
        }
        if self.consecutive_failures < 0xFFFF_FFFFu32 {
            self.consecutive_failures = self.consecutive_failures + 1;
        }
        match self.fatal_after {
            Some(n) => self.consecutive_failures >= n,
            None => false,
        }
    }
}

} // verus!
