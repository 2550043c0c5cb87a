use vstd::prelude::*;

verus! {

/// The state of a guest promise as the engine reports it: pending until the
/// engine settles it, then fulfilled or rejected — there is no fourth state.
#[derive(Clone, Copy, PartialEq, Eq, Structural, Debug)]
pub enum PromiseState {
    Pending,
    Fulfilled,
    Rejected,
}

impl PromiseState {
    /// A settled promise has left the pending state for good.
    pub open spec fn is_settled(self) -> bool {
        self is Fulfilled || self is Rejected
    }
}

/// The engine's promise state machine: a pending promise may settle either
/// way, but a settled promise never changes state again.
pub open spec fn may_transition(pre: PromiseState, post: PromiseState) -> bool {
    pre.is_settled() ==> post == pre
}

/// A history of states observed for one tracked promise, one entry per
/// polling round, is valid when each step obeys the state machine.
pub open spec fn valid_history(h: Seq<PromiseState>) -> bool {
    forall|i: int| 1 <= i < h.len() ==> may_transition(h[i - 1], #[trigger] h[i])
}

/// Law (state monotonicity): once a tracked promise is observed Fulfilled or
/// Rejected in some round, every later round observes the very same state;
/// no promise ever reverts to Pending.
pub proof fn lemma_settled_state_persists(h: Seq<PromiseState>, k: int, j: int)
    requires
        valid_history(h),
        0 <= k <= j < h.len(),
        h[k].is_settled(),
    ensures
        h[j] == h[k],
    decreases j - k,
{
    if k < j {
        lemma_settled_state_persists(h, k, j - 1);
        assert(may_transition(h[j - 1], h[j]));
    }
}

} // verus!
