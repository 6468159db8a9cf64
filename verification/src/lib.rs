//! A verified core for a streaming portfolio-valuation pipeline.
//!
//! Live market quotes for a fixed set of ticker symbols arrive over an
//! unreliable feed as compact binary frames. The library decodes those
//! frames into typed quotes, keeps a last-known-price table that only
//! moves forward in time per symbol, and values a held portfolio in a
//! single home currency using fixed-point arithmetic. The surrounding
//! network and terminal plumbing lives outside the library; the feed,
//! producer and receiver loops are driven through the state machines
//! and channel model defined here.

pub mod channel;
pub mod codec;
pub mod feed;
pub mod portfolio;
pub mod prices;
pub mod quote;
pub mod quote_producer;
pub mod quote_receiver;

use vstd::prelude::*;

verus! {

/// Fixed-point scale: all prices, quantities and conversion rates are
/// integers denominated in thousandths of a unit.
pub const SCALE: u64 = 1000;

} // verus!
