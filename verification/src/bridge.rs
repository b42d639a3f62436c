//! The event bridge's delivery protocol.
//!
//! The bridge carries a sample (or an explicit error payload) from the
//! scraping context to the monitoring core over a transport that may not be
//! ready at emit time. The protocol is fire-and-forget with a single bounded
//! retry: deliver at once when the transport is ready; otherwise schedule
//! exactly one delayed retry with a fresh transport lookup; a retry that
//! still finds no transport drops the payload. A send that fails with the
//! transport present is logged and dropped — there is no acknowledgement
//! path. The decisions stand here; the caller performs the waiting and the
//! sending.

use vstd::prelude::*;

verus! {

/// Phase of one delivery: the immediate attempt, or the single delayed
/// retry.
#[derive(Clone, Copy, Debug, PartialEq, Eq, Structural)]
pub enum EmitPhase {
    /// The immediate attempt at emit time.
    First,
    /// The one delayed retry.
    Retry,
}

/// What the bridge does next with a payload.
#[derive(Clone, Copy, Debug, PartialEq, Eq, Structural)]
pub enum BridgeAction {
    /// Hand the payload to the transport now.
    Deliver,
    /// Schedule the single delayed retry.
    ScheduleRetry,
    /// Drop the payload; delivery is best-effort.
    Drop,
}

/// The protocol's decision table: a ready transport is used at once; an
/// unavailable one earns the first attempt a retry and the retry a drop.
pub open spec fn spec_bridge_decision(phase: EmitPhase, transport_ready: bool) -> BridgeAction {
    if transport_ready {
        BridgeAction::Deliver
    } else if phase is First {
        BridgeAction::ScheduleRetry
    } else {
        BridgeAction::Drop
    }
}

/// Decides one delivery step, per [`spec_bridge_decision`].
pub fn bridge_decision(phase: EmitPhase, transport_ready: bool) -> (a: BridgeAction)
    ensures
        a == spec_bridge_decision(phase, transport_ready),
{
    if transport_ready {
        BridgeAction::Deliver
    } else {
        match phase {
            EmitPhase::First => BridgeAction::ScheduleRetry,
            EmitPhase::Retry => BridgeAction::Drop,
        }
    }
}

/// Law: the protocol never retries beyond the single attempt — a retry
/// step never schedules another retry.
pub proof fn lemma_single_retry(transport_ready: bool)
    ensures
        spec_bridge_decision(EmitPhase::Retry, transport_ready) != BridgeAction::ScheduleRetry,
{
}

/// Registration of the scraping context's trigger listener. Registration
/// is idempotent: a second registration changes nothing, so one trigger
/// message never causes double sampling.
#[derive(Clone, Copy, Debug, PartialEq, Eq, Structural)]
pub struct ListenerRegistry {
    /// The trigger listener is installed.
    pub registered: bool,
}

impl ListenerRegistry {
    /// The initial registry: no listener installed.
    pub fn new() -> (r: Self)
        ensures
            !r.registered,
    {
        ListenerRegistry { registered: false }
    }

    /// Registers the listener. Returns whether the caller must install it
    /// — false on a duplicate registration, which is a no-op.
    pub fn register(&mut self) -> (fresh: bool)
        ensures
            final(self).registered,
            fresh == !old(self).registered,
    {
        let fresh = !self.registered;
        self.registered = true;
        fresh
    }
}

} // verus!
