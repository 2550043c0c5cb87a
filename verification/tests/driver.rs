use promise_bridge::driver::{
    accept_call_result, collect_top_level, tally_round, CallOutcome, DriverError, RoundTally,
    BULK_INVOCATIONS, POLLING_ROUNDS,
};
use promise_bridge::state::PromiseState;

#[test]
fn run_configuration() {
    assert_eq!(BULK_INVOCATIONS, 10000);
    assert_eq!(POLLING_ROUNDS, 10);
}

#[test]
fn promise_returns_are_collected_in_order() {
    let outcomes = vec![
        CallOutcome::ReturnedPromise(1),
        CallOutcome::ReturnedPromise(2),
        CallOutcome::ReturnedPromise(3),
    ];
    assert_eq!(collect_top_level(&outcomes), Ok(vec![1, 2, 3]));
}

#[test]
fn non_promise_return_is_invariant_violation() {
    let mut top_level = vec![9];
    let r = accept_call_result(CallOutcome::ReturnedValue, &mut top_level);
    assert_eq!(r, Err(DriverError::InvariantViolation));
    assert_eq!(top_level, vec![9]);

    let outcomes = vec![CallOutcome::ReturnedPromise(1), CallOutcome::ReturnedValue];
    assert_eq!(collect_top_level(&outcomes), Err(DriverError::InvariantViolation));
}

#[test]
fn failed_call_is_call_error() {
    let mut top_level = Vec::new();
    let r = accept_call_result(CallOutcome::Failed, &mut top_level);
    assert_eq!(r, Err(DriverError::CallError));
    assert!(top_level.is_empty());

    let outcomes = vec![CallOutcome::Failed];
    assert_eq!(collect_top_level(&outcomes), Err(DriverError::CallError));
}

#[test]
fn accepted_promise_is_appended() {
    let mut top_level = Vec::new();
    assert_eq!(accept_call_result(CallOutcome::ReturnedPromise(5), &mut top_level), Ok(()));
    assert_eq!(accept_call_result(CallOutcome::ReturnedPromise(6), &mut top_level), Ok(()));
    assert_eq!(top_level, vec![5, 6]);
}

#[test]
fn empty_bulk_phase_collects_nothing() {
    let outcomes: Vec<CallOutcome> = Vec::new();
    assert_eq!(collect_top_level(&outcomes), Ok(Vec::new()));
}

#[test]
fn tally_classifies_each_state_once() {
    let states = vec![
        PromiseState::Pending,
        PromiseState::Fulfilled,
        PromiseState::Rejected,
        PromiseState::Fulfilled,
    ];
    let t = tally_round(&states);
    assert_eq!(t, RoundTally { pending: 1, fulfilled: 2, rejected: 1 });
}

#[test]
fn tally_of_no_tracked_promises_is_zero() {
    let states: Vec<PromiseState> = Vec::new();
    let t = tally_round(&states);
    assert_eq!(t, RoundTally { pending: 0, fulfilled: 0, rejected: 0 });
}
