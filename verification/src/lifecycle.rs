use vstd::prelude::*;

verus! {

/// The externally observable state of one isolation slot, keyed by its
/// box id. Exactly one init-run-cleanup sequence may be in flight per
/// id; under that discipline the slot moves through these states.
#[derive(Clone, Copy, Debug, PartialEq, Eq, Structural)]
pub enum SlotState {
    /// No claim is held for the id.
    Free,
    /// The backend holds a claim for the id: its staging directory
    /// exists, whether or not staging completed.
    Claimed,
}

/// What claiming the slot during init does: a successful backend claim
/// holds the slot; a failed claim leaves it as it was.
pub open spec fn claim_transition(s: SlotState, claim_ok: bool) -> SlotState {
    if claim_ok {
        SlotState::Claimed
    } else {
        s
    }
}

/// A fresh init may only proceed on a slot with no outstanding claim.
pub open spec fn init_allowed(s: SlotState) -> bool {
    s == SlotState::Free
}

/// What cleanup does: it releases the slot unconditionally, whatever
/// state init left it in.
pub open spec fn cleanup_transition(s: SlotState) -> SlotState {
    SlotState::Free
}

/// Cleanup is idempotent: a second cleanup in a row changes nothing,
/// cleanup on a slot whose init never ran leaves it free and harmless,
/// and after any cleanup a fresh init on the same box id is allowed
/// again.
pub proof fn lemma_cleanup_idempotent(s: SlotState)
    ensures
        cleanup_transition(cleanup_transition(s)) == cleanup_transition(s),
        cleanup_transition(SlotState::Free) == SlotState::Free,
        init_allowed(cleanup_transition(s)),
{
}

/// A partial init failure leaves no residual claim that blocks a
/// cleanup-and-retry cycle: whatever a failed init left behind --
/// claimed but unstaged, or never claimed -- cleanup frees the slot,
/// and a retried init with corrected inputs can claim it again.
pub proof fn lemma_partial_init_recoverable(claim_ok: bool)
    ensures
        init_allowed(cleanup_transition(claim_transition(SlotState::Free, claim_ok))),
        claim_transition(
            cleanup_transition(claim_transition(SlotState::Free, claim_ok)),
            true,
        ) == SlotState::Claimed,
{
}

} // verus!
