//! Sample deduplication.
//!
//! Hysteresis filter over extracted samples: a new value is emitted only
//! when it differs from the previously emitted value by at least half a
//! percent, so the user is not flooded with notifications for noise. A
//! change of a full percent or more is additionally flagged as notable, for
//! diagnostics only.

use crate::percent::MAX_MILLI;
use crate::percent::MAX_TENTHS;
use crate::percent::round_tenths;
use crate::percent::spec_round_tenths;
use crate::percent::spec_tenths_diff;
use crate::percent::tenths_diff;
use vstd::prelude::*;

verus! {

/// Outcome of one deduplication step.
#[derive(Clone, Copy, Debug, PartialEq, Eq, Structural)]
pub struct DedupOutcome {
    /// The sample is worth emitting.
    pub emit: bool,
    /// The change is a full percent or more — flagged for diagnostic
    /// logging only, never an emission gate.
    pub notable: bool,
    /// The sample rounded to tenths of a percent.
    pub rounded_tenths: u32,
}

/// Emission rule: with no previous value every sample is emitted (it
/// establishes the state); afterwards only a change of at least half a
/// percent is.
pub open spec fn spec_should_emit(prev: Option<u32>, rounded: nat) -> bool {
    match prev {
        None => true,
        Some(p) => spec_tenths_diff(p as nat, rounded) >= 5,
    }
}

/// A notable change: a full percent or more against the previous value.
pub open spec fn spec_notable(prev: Option<u32>, rounded: nat) -> bool {
    match prev {
        None => false,
        Some(p) => spec_tenths_diff(p as nat, rounded) >= 10,
    }
}

/// Judges a raw extracted value against the previously emitted value: the
/// value is rounded to one decimal place and emitted exactly when the
/// emission rule holds of the rounded value.
pub fn dedup_step(prev: Option<u32>, raw_milli: u32) -> (r: DedupOutcome)
    requires
        raw_milli <= MAX_MILLI,
    ensures
        r.rounded_tenths == spec_round_tenths(raw_milli as nat),
        r.rounded_tenths <= MAX_TENTHS,
        r.emit == spec_should_emit(prev, r.rounded_tenths as nat),
        r.notable == spec_notable(prev, r.rounded_tenths as nat),
{
    let rounded = round_tenths(raw_milli);
    let (emit, notable) = match prev {
        None => (true, false),
        Some(p) => {
            let d = tenths_diff(p, rounded);
            (d >= 5, d >= 10)
        },
    };
    DedupOutcome { emit, notable, rounded_tenths: rounded }
}

} // verus!
