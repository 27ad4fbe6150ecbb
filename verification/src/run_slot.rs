//! The single slot that long-running jobs (a build, a performance sweep) take, so only one runs at
//! a time and a cancelled one keeps the slot until it has actually finished.
use vstd::prelude::*;

verus! {

/// The running job: its identity, and whether it has been asked to stop.
#[derive(Debug, Clone, Copy, PartialEq, Eq, Structural)]
pub struct ActiveRun {
    pub id: u128,
    pub cancelled: bool,
}

/// The slot after a cancel: the run it holds, marked cancelled.
pub open spec fn slot_after_cancel(slot: Option<ActiveRun>) -> Option<ActiveRun> {
    match slot {
        Some(a) => Some(ActiveRun { id: a.id, cancelled: true }),
        None => None,
    }
}

/// The slot after the run `id` finishes: freed if that run holds it, else unchanged.
pub open spec fn slot_after_finish(slot: Option<ActiveRun>, id: u128) -> Option<ActiveRun> {
    match slot {
        Some(a) => if a.id == id {
            None
        } else {
            slot
        },
        None => None,
    }
}

/// Whether the run `id` has been cancelled while it holds the slot.
pub open spec fn run_cancelled(slot: Option<ActiveRun>, id: u128) -> bool {
    slot matches Some(a) && a.id == id && a.cancelled
}

/// Cancelling a running job keeps its slot, so a new one is still refused; the job sees its
/// cancellation; finishing any other run leaves it in place; and its own finish frees the slot.
pub proof fn cancel_keeps_slot_until_finish(id: u128, other: u128)
    requires
        other != id,
    ensures
        ({
            let cancelled = slot_after_cancel(Some(ActiveRun { id, cancelled: false }));
            &&& cancelled is Some
            &&& run_cancelled(cancelled, id)
            &&& slot_after_finish(cancelled, other) == cancelled
            &&& slot_after_finish(cancelled, id) is None
        }),
{
}

/// Cancelling with nothing running changes nothing.
pub proof fn cancel_when_idle_is_a_no_op()
    ensures
        slot_after_cancel(None) is None,
{
}

/// A fresh, random identity for a run.
#[verifier::external_body]
pub(crate) fn fresh_run_id() -> u128 {
    uuid::Uuid::new_v4().as_u128()
}

} // verus!
