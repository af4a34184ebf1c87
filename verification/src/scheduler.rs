//! The period of the bot's rounds.
use vstd::prelude::*;

verus! {

/// Seconds between two scheduled rounds of the bot (one hour); the first
/// round runs at startup, and a failed round does not stop the schedule.
pub const SCHEDULE_PERIOD_SECS: u64 = 3600;

} // verus!
