//! Feed client state machine.
//!
//! The client owns one logical subscription to the feed for the whole
//! process lifetime. Connection handling is a pure transition
//! function from (state, event) to (state, action): the surrounding
//! task feeds it connection events and inbound frames and performs
//! the actions it asks for. A malformed frame is skipped, never fatal;
//! a lost connection asks for a reconnect after an exponentially
//! growing, bounded delay, followed by a fresh subscription request.

use vstd::prelude::*;

use crate::codec::spec_decode;
use crate::codec::decode;
use crate::quote::Quote;
use crate::quote::QuoteModel;
use crate::quote::Symbol;

verus! {

/// Delay before the first reconnect attempt, in milliseconds.
pub const BASE_BACKOFF_MS: u64 = 500;

/// Largest reconnect delay, in milliseconds.
pub const MAX_BACKOFF_MS: u64 = 30_000;

/// Unrecoverable subscription error: the stream never starts.
#[derive(Clone, Copy, PartialEq, Eq, Structural, Debug)]
pub enum FeedError {
    /// A subscription needs at least one symbol.
    EmptySymbols,
}

/// Reconnect delay after a given number of consecutive failed
/// attempts: doubling from the base, capped at the maximum.
pub open spec fn spec_backoff(attempt: u32) -> u64 {
    if attempt == 0 {
        500
    } else if attempt == 1 {
        1000
    } else if attempt == 2 {
        2000
    } else if attempt == 3 {
        4000
    } else if attempt == 4 {
        8000
    } else if attempt == 5 {
        16000
    } else {
        30000
    }
}

/// The reconnect delay never leaves the configured band: backoff is
/// bounded, so a flapping feed cannot push the client into ever
/// longer silences, and never retries busily either.
pub proof fn lemma_backoff_bounded(attempt: u32)
    ensures
        BASE_BACKOFF_MS <= spec_backoff(attempt) <= MAX_BACKOFF_MS,
{
}

/// Reconnect delay after `attempt` consecutive failures.
pub fn backoff_delay(attempt: u32) -> (d: u64)
    ensures
        d == spec_backoff(attempt),
        BASE_BACKOFF_MS <= d <= MAX_BACKOFF_MS,
{
    if attempt == 0 {
        500
    } else if attempt == 1 {
        1000
    } else if attempt == 2 {
        2000
    } else if attempt == 3 {
        4000
    } else if attempt == 4 {
        8000
    } else if attempt == 5 {
        16000
    } else {
        30000
    }
}

/// Connection state of the feed client.
#[derive(Clone, Copy, PartialEq, Eq, Structural, Debug)]
pub enum FeedState {
    /// Not connected; `attempt` consecutive connect failures so far.
    AwaitingConnect { attempt: u32 },
    /// Connected with the subscription request sent.
    Subscribed,
}

/// What the transport reports to the client.
pub enum FeedEvent {
    /// The connection is established.
    Connected,
    /// One inbound binary frame.
    Frame(Vec<u8>),
    /// The connection is gone: network reset, protocol close or idle
    /// timeout.
    ConnectionLost,
}

/// Mathematical model of a feed event.
pub ghost enum FeedEventModel {
    Connected,
    Frame(Seq<u8>),
    ConnectionLost,
}

impl View for FeedEvent {
    type V = FeedEventModel;

    open spec fn view(&self) -> FeedEventModel {
        match self {
            FeedEvent::Connected => FeedEventModel::Connected,
            FeedEvent::Frame(b) => FeedEventModel::Frame(b@),
            FeedEvent::ConnectionLost => FeedEventModel::ConnectionLost,
        }
    }
}

/// What the surrounding task must do next.
pub enum FeedAction {
    /// Send the subscription control frame for the symbol set.
    SendSubscribe,
    /// Hand one decoded quote downstream.
    Emit(Quote),
    /// Nothing to do; a malformed frame lands here and is skipped.
    Skip,
    /// Wait this many milliseconds, then open a new connection.
    Reconnect { delay_ms: u64 },
}

/// Mathematical model of a feed action.
pub ghost enum FeedActionModel {
    SendSubscribe,
    Emit(QuoteModel),
    Skip,
    Reconnect { delay_ms: u64 },
}

impl View for FeedAction {
    type V = FeedActionModel;

    open spec fn view(&self) -> FeedActionModel {
        match self {
            FeedAction::SendSubscribe => FeedActionModel::SendSubscribe,
            FeedAction::Emit(q) => FeedActionModel::Emit(q@),
            FeedAction::Skip => FeedActionModel::Skip,
            FeedAction::Reconnect { delay_ms } => FeedActionModel::Reconnect {
                delay_ms: *delay_ms,
            },
        }
    }
}

/// Next state of the transition function.
pub open spec fn spec_step_state(s: FeedState, e: FeedEventModel) -> FeedState {
    match (s, e) {
        (FeedState::AwaitingConnect { .. }, FeedEventModel::Connected) => FeedState::Subscribed,
        (FeedState::AwaitingConnect { attempt }, FeedEventModel::ConnectionLost) => (
        FeedState::AwaitingConnect {
            attempt: if attempt < 0xFFFF_FFFFu32 {
                (attempt + 1) as u32
            } else {
                attempt
            },
        }),
        (FeedState::AwaitingConnect { attempt }, FeedEventModel::Frame(_)) => (
        FeedState::AwaitingConnect { attempt }),
        (FeedState::Subscribed, FeedEventModel::Connected) => FeedState::Subscribed,
        (FeedState::Subscribed, FeedEventModel::Frame(_)) => FeedState::Subscribed,
        (FeedState::Subscribed, FeedEventModel::ConnectionLost) => (FeedState::AwaitingConnect {
            attempt: 0,
        }),
    }
}

/// Action of the transition function.
pub open spec fn spec_step_action(s: FeedState, e: FeedEventModel) -> FeedActionModel {
    match (s, e) {
        (FeedState::AwaitingConnect { .. }, FeedEventModel::Connected) => (
        FeedActionModel::SendSubscribe),
        (FeedState::AwaitingConnect { attempt }, FeedEventModel::ConnectionLost) => (
        FeedActionModel::Reconnect {
            delay_ms: spec_backoff(
                if attempt < 0xFFFF_FFFFu32 {
                    (attempt + 1) as u32
                } else {
                    attempt
                },
            ),
        }),
        (FeedState::AwaitingConnect { .. }, FeedEventModel::Frame(_)) => FeedActionModel::Skip,
        (FeedState::Subscribed, FeedEventModel::Connected) => FeedActionModel::Skip,
        (FeedState::Subscribed, FeedEventModel::Frame(b)) => match spec_decode(b) {
            Some(q) => FeedActionModel::Emit(q),
            None => FeedActionModel::Skip,
        },
        (FeedState::Subscribed, FeedEventModel::ConnectionLost) => FeedActionModel::Reconnect {
            delay_ms: spec_backoff(0),
        },
    }
}

/// Start a subscription for a symbol set. An empty set is the one
/// unrecoverable configuration error; otherwise the client begins
/// waiting for its first connection.
pub fn subscribe(symbols: &Vec<Symbol>) -> (r: Result<FeedState, FeedError>)
    ensures
        r is Ok <==> symbols@.len() > 0,
        r matches Ok(s) ==> s == (FeedState::AwaitingConnect { attempt: 0u32 }),
        r matches Err(e) ==> e == FeedError::EmptySymbols,
{
    if symbols.len() == 0 {
        Err(FeedError::EmptySymbols)
    } else {
        Ok(FeedState::AwaitingConnect { attempt: 0 })
    }
}

/// One transition: on connect, subscribe afresh; while subscribed,
/// decode each frame and emit the quote, skipping malformed frames;
/// on connection loss, back off and reconnect. The stream never
/// terminates on a frame or connection event.
pub fn step(state: FeedState, event: FeedEvent) -> (r: (FeedState, FeedAction))
    ensures
        r.0 == spec_step_state(state, event@),
        r.1@ == spec_step_action(state, event@),
{
    match (state, event) {
        (FeedState::AwaitingConnect { .. }, FeedEvent::Connected) => (
            FeedState::Subscribed,
            FeedAction::SendSubscribe,
        ),
        (FeedState::AwaitingConnect { attempt }, FeedEvent::ConnectionLost) => {
            let next = if attempt < 0xFFFF_FFFFu32 {
                attempt + 1
            } else {
                attempt
            };
            (
                FeedState::AwaitingConnect { attempt: next },
                FeedAction::Reconnect { delay_ms: backoff_delay(next) },
            )
        },
        (FeedState::AwaitingConnect { attempt }, FeedEvent::Frame(_)) => (
            FeedState::AwaitingConnect { attempt },
            FeedAction::Skip,
        ),
        (FeedState::Subscribed, FeedEvent::Connected) => (FeedState::Subscribed, FeedAction::Skip),
        (FeedState::Subscribed, FeedEvent::Frame(b)) => match decode(&b) {
            Ok(q) => (FeedState::Subscribed, FeedAction::Emit(q)),
            Err(_) => (FeedState::Subscribed, FeedAction::Skip),
        },
        (FeedState::Subscribed, FeedEvent::ConnectionLost) => (
            FeedState::AwaitingConnect { attempt: 0 },
            FeedAction::Reconnect { delay_ms: backoff_delay(0) },
        ),
    }
}

} // verus!
