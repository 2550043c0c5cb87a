use vstd::prelude::*;
use crate::state::PromiseState;

verus! {

/// How many times the driver invokes the guest entry point in one run.
pub const BULK_INVOCATIONS: usize = 10000;

/// How many polling rounds the driver performs after the bulk phase.
pub const POLLING_ROUNDS: usize = 10;

/// An opaque token standing for one engine-owned promise object.
pub type PromiseHandle = u64;

/// What the engine reported for one invocation of the guest entry point,
/// reduced to what the driver's contract turns on.
#[derive(Clone, Copy, PartialEq, Eq, Structural, Debug)]
pub enum CallOutcome {
    /// The call returned a promise, as the `async` entry point guarantees.
    ReturnedPromise(PromiseHandle),
    /// The call returned, but with a bare non-promise value.
    ReturnedValue,
    /// The engine rejected the call outright (a throw, or not callable).
    Failed,
}

/// The driver's unrecoverable errors: the guest contract guarantees a
/// callable entry point that always returns a promise, so both breaches
/// abort the run rather than being retried or skipped.
#[derive(Clone, Copy, PartialEq, Eq, Structural, Debug)]
pub enum DriverError {
    /// The invocation itself was rejected by the engine.
    CallError,
    /// The invocation returned a value that is not a promise.
    InvariantViolation,
}

/// Accept the outcome of one entry-point invocation: exactly the promise
/// outcomes are accepted, and each appends its handle — and nothing else —
/// to the run's ordered collection of top-level promises.
pub fn accept_call_result(outcome: CallOutcome, top_level: &mut Vec<PromiseHandle>) -> (r: Result<
    (),
    DriverError,
>)
    ensures
        r is Ok <==> outcome is ReturnedPromise,
        match r {
            Ok(()) => {
                &&& outcome matches CallOutcome::ReturnedPromise(h) && final(top_level)@ == old(
                    top_level,
                )@.push(h)
            },
            Err(e) => {
                &&& final(top_level)@ == old(top_level)@
                &&& (e is CallError <==> outcome is Failed)
                &&& (e is InvariantViolation <==> outcome is ReturnedValue)
            },
        },
{
    match outcome {
        CallOutcome::ReturnedPromise(h) => {
            top_level.push(h);
            Ok(())
        },
        CallOutcome::ReturnedValue => Err(DriverError::InvariantViolation),
        CallOutcome::Failed => Err(DriverError::CallError),
    }
}

/// The top-level promise handles a bulk phase collects from the given call
/// outcomes, in call order — or nothing, if any call broke the guest
/// contract by not handing back a promise.
pub open spec fn collected_promises(outcomes: Seq<CallOutcome>) -> Option<Seq<PromiseHandle>>
    decreases outcomes.len(),
{
    if outcomes.len() == 0 {
        Some(Seq::empty())
    } else {
        match collected_promises(outcomes.drop_last()) {
            Some(handles) => match outcomes.last() {
                CallOutcome::ReturnedPromise(h) => Some(handles.push(h)),
                _ => None,
            },
            None => None,
        }
    }
}

/// Law (promise per call): a bulk phase completes exactly when every one of
/// its invocations returned a promise — never a bare value, never an error —
/// and then it collects exactly one top-level promise handle per invocation,
/// in call order.
pub proof fn lemma_promise_per_call(outcomes: Seq<CallOutcome>)
    ensures
        (collected_promises(outcomes) is Some) <==> (forall|i: int|
            0 <= i < outcomes.len() ==> outcomes[i] is ReturnedPromise),
        collected_promises(outcomes) matches Some(handles) ==> {
            &&& handles.len() == outcomes.len()
            &&& forall|i: int|
                0 <= i < outcomes.len() ==> outcomes[i] == CallOutcome::ReturnedPromise(
                    handles[i],
                )
        },
    decreases outcomes.len(),
{
    let n = outcomes.len() as int;
    if n > 0 {
        let pre = outcomes.drop_last();
        lemma_promise_per_call(pre);
        assert(forall|i: int| 0 <= i < n - 1 ==> #[trigger] pre[i] == outcomes[i]);
        if forall|i: int| 0 <= i < n ==> outcomes[i] is ReturnedPromise {
            assert forall|i: int| 0 <= i < n - 1 implies #[trigger] pre[i] is ReturnedPromise by {
                assert(outcomes[i] is ReturnedPromise);
            }
            assert(collected_promises(pre) is Some);
            assert(outcomes[n - 1] is ReturnedPromise);
            assert(outcomes.last() == outcomes[n - 1]);
        }
        if collected_promises(outcomes) is Some {
            let handles = collected_promises(outcomes)->Some_0;
            let prev = collected_promises(pre)->Some_0;
            let last_handle = outcomes.last()->ReturnedPromise_0;
            assert(handles == prev.push(last_handle));
            assert forall|i: int|
                0 <= i < n implies outcomes[i] == CallOutcome::ReturnedPromise(
                #[trigger] handles[i],
            ) by {
                if i < n - 1 {
                    assert(pre[i] == CallOutcome::ReturnedPromise(prev[i]));
                    assert(handles[i] == prev[i]);
                } else {
                    assert(outcomes[i] == outcomes.last());
                    assert(handles[i] == last_handle);
                }
            }
            assert forall|i: int| 0 <= i < n implies (#[trigger] outcomes[i]) is ReturnedPromise by {
                assert(outcomes[i] == CallOutcome::ReturnedPromise(handles[i]));
            }
        }
    }
}

/// The bulk phase stops at outcome `i` with error `e`: every earlier call
/// returned a promise, the call at `i` did not, and `e` classifies it.
pub open spec fn stops_bulk_at(outcomes: Seq<CallOutcome>, i: int, e: DriverError) -> bool {
    &&& !(outcomes[i] is ReturnedPromise)
    &&& forall|j: int| 0 <= j < i ==> outcomes[j] is ReturnedPromise
    &&& (e is CallError <==> outcomes[i] is Failed)
    &&& (e is InvariantViolation <==> outcomes[i] is ReturnedValue)
}

/// Run the bulk phase's collection over a completed sequence of call
/// outcomes: the verified form of the driver's first contract. The run
/// aborts at the earliest invocation that broke the guest contract, with
/// the error classifying exactly that invocation.
pub fn collect_top_level(outcomes: &Vec<CallOutcome>) -> (r: Result<Vec<PromiseHandle>, DriverError>)
    ensures
        match r {
            Ok(handles) => collected_promises(outcomes@) == Some(handles@),
            Err(e) => {
                &&& collected_promises(outcomes@) is None
                &&& exists|i: int|
                    0 <= i < outcomes@.len() && #[trigger] stops_bulk_at(outcomes@, i, e)
            },
        },
{
    let mut handles: Vec<PromiseHandle> = Vec::new();
    let mut i: usize = 0;
    while i < outcomes.len()
        invariant
            i <= outcomes@.len(),
            collected_promises(outcomes@.take(i as int)) == Some(handles@),
        decreases outcomes@.len() - i,
    {
        let outcome = outcomes[i];
        proof {
            assert(outcomes@.take(i + 1).drop_last() =~= outcomes@.take(i as int));
            assert(outcomes@.take(i + 1).last() == outcomes@[i as int]);
        }
        match accept_call_result(outcome, &mut handles) {
            Ok(()) => {},
            Err(e) => {
                proof {
                    lemma_promise_per_call(outcomes@);
                    lemma_promise_per_call(outcomes@.take(i as int));
                    assert forall|j: int| 0 <= j < i implies #[trigger] outcomes@[j]
                        is ReturnedPromise by {
                        assert(outcomes@.take(i as int)[j] == outcomes@[j]);
                    }
                    assert(stops_bulk_at(outcomes@, i as int, e));
                }
                return Err(e);
            },
        }
        i = i + 1;
    }
    proof {
        assert(outcomes@.take(outcomes@.len() as int) =~= outcomes@);
    }
    Ok(handles)
}

/// One polling round's tally of tracked promise states.
#[derive(Clone, Copy, PartialEq, Eq, Structural, Debug)]
pub struct RoundTally {
    pub pending: usize,
    pub fulfilled: usize,
    pub rejected: usize,
}

/// How many of the observed states are exactly `s`.
pub open spec fn count_state(states: Seq<PromiseState>, s: PromiseState) -> int
    decreases states.len(),
{
    if states.len() == 0 {
        0
    } else {
        count_state(states.drop_last(), s) + if states.last() == s {
            1int
        } else {
            0int
        }
    }
}

/// One polling round over the states the engine reported for the tracked
/// promises: classify every observation into exactly one of the three
/// states and tally them; the three counts partition the observations.
pub fn tally_round(states: &Vec<PromiseState>) -> (t: RoundTally)
    ensures
        t.pending == count_state(states@, PromiseState::Pending),
        t.fulfilled == count_state(states@, PromiseState::Fulfilled),
        t.rejected == count_state(states@, PromiseState::Rejected),
        t.pending + t.fulfilled + t.rejected == states@.len(),
{
    let mut t = RoundTally { pending: 0, fulfilled: 0, rejected: 0 };
    let mut i: usize = 0;
    while i < states.len()
        invariant
            i <= states@.len(),
            t.pending == count_state(states@.take(i as int), PromiseState::Pending),
            t.fulfilled == count_state(states@.take(i as int), PromiseState::Fulfilled),
            t.rejected == count_state(states@.take(i as int), PromiseState::Rejected),
            t.pending + t.fulfilled + t.rejected == i,
        decreases states@.len() - i,
    {
        proof {
            assert(states@.take(i + 1).drop_last() =~= states@.take(i as int));
            assert(states@.take(i + 1).last() == states@[i as int]);
        }
        match states[i] {
            PromiseState::Pending => t.pending = t.pending + 1,
            PromiseState::Fulfilled => t.fulfilled = t.fulfilled + 1,
            PromiseState::Rejected => t.rejected = t.rejected + 1,
        }
        i = i + 1;
    }
    proof {
        assert(states@.take(states@.len() as int) =~= states@);
    }
    t
}

} // verus!
