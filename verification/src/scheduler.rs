//! The periodic scheduler's state machine and the core's sample handling.
//!
//! The scheduler owns a single periodic sampling loop. Its guard is the
//! `running` flag: a start request that observes the flag set is a no-op,
//! one that observes it clear claims the loop by setting it; a stop request
//! clears it and the loop observes that at its next check point. The caller
//! holds the state under one mutual-exclusion region; the transitions here
//! say what each request does to it.
//!
//! Reconfiguration does not alter an already-scheduled tick: a changed
//! interval takes effect on the next scheduler start (restart to apply).

use crate::config::AppConfig;
use crate::dedup::DedupOutcome;
use crate::dedup::dedup_step;
use crate::dedup::spec_notable;
use crate::dedup::spec_should_emit;
use crate::percent::MAX_MILLI;
use crate::percent::spec_round_tenths;
use vstd::prelude::*;

verus! {

/// Process-wide run state: whether the sampling loop is active, and the
/// last emitted sample value in tenths of a percent.
#[derive(Clone, Copy, Debug, PartialEq, Eq)]
pub struct RunState {
    /// The sampling loop is active.
    pub running: bool,
    /// Last emitted sample value, in tenths of a percent.
    pub last_emitted_tenths: Option<u32>,
}

/// A start request: the next state and whether the request claimed the
/// loop (a request that observes `running` already set is a no-op).
pub open spec fn spec_start(s: RunState) -> (RunState, bool) {
    (RunState { running: true, ..s }, !s.running)
}

/// A stop request: clears the flag; the loop terminates at its next check
/// point.
pub open spec fn spec_stop(s: RunState) -> RunState {
    RunState { running: false, ..s }
}

impl RunState {
    /// The initial state: idle, nothing emitted yet.
    pub fn new() -> (s: Self)
        ensures
            !s.running,
            s.last_emitted_tenths is None,
    {
        RunState { running: false, last_emitted_tenths: None }
    }

    /// Start request under the guard. Returns whether this request claimed
    /// the loop; when it did not, the state is unchanged and the caller
    /// must not start a second loop.
    pub fn try_start(&mut self) -> (started: bool)
        ensures
            (*final(self), started) == spec_start(*old(self)),
            final(self).running,
            started == !old(self).running,
            final(self).last_emitted_tenths == old(self).last_emitted_tenths,
    {
        let started = !self.running;
        self.running = true;
        started
    }

    /// Stop request under the guard: clears the flag, touches nothing
    /// else. Stopping is cooperative — no cycle is aborted mid-flight.
    pub fn request_stop(&mut self)
        ensures
            *final(self) == spec_stop(*old(self)),
            !final(self).running,
            final(self).last_emitted_tenths == old(self).last_emitted_tenths,
    {
        self.running = false;
    }

    /// The loop's check point before each tick: whether to go on.
    pub fn should_continue(&self) -> (r: bool)
        ensures
            r == self.running,
    {
        self.running
    }
}

/// Law: starting twice in immediate succession yields exactly one active
/// loop — the second request is a no-op on an unchanged state; and after a
/// stop, a new start claims a new loop.
pub proof fn lemma_start_idempotent(s: RunState)
    ensures
        ({
            let (s1, started1) = spec_start(s);
            let (s2, started2) = spec_start(s1);
            &&& s1.running
            &&& !s.running ==> started1
            &&& !started2
            &&& s2 == s1
            &&& ({
                let s3 = spec_stop(s1);
                let (s4, started4) = spec_start(s3);
                started4 && s4.running
            })
        }),
{
}

/// Seconds of the configured check interval.
pub fn interval_seconds(cfg: &AppConfig) -> (r: u64)
    ensures
        r == cfg.check_interval_minutes * 60,
{
    (cfg.check_interval_minutes as u64) * 60
}

/// The core's answer to one extracted sample.
#[derive(Clone, Copy, Debug, PartialEq, Eq, Structural)]
pub struct SampleResponse {
    /// What the deduplicator decided.
    pub outcome: DedupOutcome,
    /// A warning alert must be dispatched: the sample was emitted and the
    /// emitted value reaches the warning threshold.
    pub warn: bool,
}

/// Feeds one raw extracted value to the core once its delivery outcome is
/// known: the deduplicator judges it, and the last emitted value is
/// replaced exactly when the sample was emitted *and* delivered — never on
/// a suppressed sample, never on a transport failure. A warning is due
/// exactly when the newly delivered value reaches the threshold.
pub fn process_sample(
    state: &mut RunState,
    cfg: &AppConfig,
    raw_milli: u32,
    delivered: bool,
) -> (r: SampleResponse)
    requires
        raw_milli <= MAX_MILLI,
    ensures
        r.outcome.rounded_tenths == spec_round_tenths(raw_milli as nat),
        r.outcome.emit == spec_should_emit(
            old(state).last_emitted_tenths,
            r.outcome.rounded_tenths as nat,
        ),
        r.outcome.notable == spec_notable(
            old(state).last_emitted_tenths,
            r.outcome.rounded_tenths as nat,
        ),
        final(state).running == old(state).running,
        final(state).last_emitted_tenths == (if r.outcome.emit && delivered {
            Some(r.outcome.rounded_tenths)
        } else {
            old(state).last_emitted_tenths
        }),
        r.warn == (r.outcome.emit && delivered && r.outcome.rounded_tenths
            >= cfg.warning_threshold_tenths),
{
    let outcome = dedup_step(state.last_emitted_tenths, raw_milli);
    if outcome.emit && delivered {
        state.last_emitted_tenths = Some(outcome.rounded_tenths);
    }
    let warn = outcome.emit && delivered && outcome.rounded_tenths
        >= cfg.warning_threshold_tenths;
    SampleResponse { outcome, warn }
}

} // verus!
