//! Tracks serialized video releases announced on syndication feeds.
//!
//! The library covers the feed-ingestion pipeline: parsing structured
//! episode metadata out of free-text release titles, scoring and filtering
//! competing releases against a prioritized rule set with per-show
//! overrides, keeping an idempotent download-history ledger, and computing
//! the polling schedule that drives each cycle.

use vstd::prelude::*;

pub mod catalog;
pub mod episodes;
pub mod feed;
pub mod filter;
pub mod ledger;
pub mod schedule;
pub mod seasons;
pub mod text;

verus! {

/// The error kinds this library reports.
///
/// Every kind is recovered locally by callers: a transport failure is
/// treated as an empty fetch, a parse failure skips the item, a conflict
/// marks a benign duplicate, and a configuration failure falls back to the
/// fixed twice-daily schedule.
#[derive(Debug, Clone, Copy, PartialEq, Eq, Structural)]
pub enum TrackerError {
    Transport,
    Parse,
    Conflict,
    Config,
}

} // verus!
