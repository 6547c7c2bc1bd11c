use promise_harness::CallOutcome;
use promise_harness::CompileOutcome;
use promise_harness::DeferredObservation;
use promise_harness::Harness;
use promise_harness::HarnessError;
use promise_harness::INVOCATIONS_PER_ITERATION;

fn batch(outcome_for_each: CallOutcome) -> Vec<CallOutcome> {
    let mut v = Vec::new();
    for _ in 0..INVOCATIONS_PER_ITERATION {
        v.push(outcome_for_each);
    }
    v
}

#[test]
fn fresh_harness_is_uncompiled_and_empty() {
    let h = Harness::new();
    assert!(!h.compiled);
    assert_eq!(h.iterations, 0);
    assert_eq!(h.outstanding.len(), 0);
    assert_eq!(h.next_id, 0);
}

#[test]
fn bootstrap_success_compiles_once() {
    let mut h = Harness::new();
    let r = h.record_compilation(CompileOutcome::Success);
    assert!(r.is_ok());
    assert!(h.compiled);
}

#[test]
fn bootstrap_failure_is_fatal_with_diagnostic() {
    let mut h = Harness::new();
    let r = h.record_compilation(CompileOutcome::Failure(String::from("SyntaxError: bad")));
    match r {
        Err(HarnessError::Startup(d)) => assert_eq!(d, "SyntaxError: bad"),
        other => panic!("expected a startup error, got {:?}", other),
    }
    assert!(!h.compiled);
}

#[test]
fn batch_of_deferred_grows_outstanding_by_five() {
    let mut h = Harness::new();
    h.record_compilation(CompileOutcome::Success).unwrap();
    let assigned = h.run_batch(&batch(CallOutcome::Deferred)).unwrap();
    assert_eq!(assigned, vec![0, 1, 2, 3, 4]);
    assert_eq!(h.outstanding, vec![0, 1, 2, 3, 4]);
    assert_eq!(h.next_id, 5);
}

#[test]
fn immediate_values_are_discarded_without_recording() {
    let mut h = Harness::new();
    h.record_compilation(CompileOutcome::Success).unwrap();
    let assigned = h.run_batch(&batch(CallOutcome::Immediate)).unwrap();
    assert!(assigned.is_empty());
    assert_eq!(h.outstanding.len(), 0);
    assert_eq!(h.next_id, 0);
    // The drain pass over an empty outstanding collection is a no-op.
    let flags = h.drain(&Vec::new()).unwrap();
    assert!(flags.is_empty());
    assert_eq!(h.outstanding.len(), 0);
}

#[test]
fn mixed_batch_records_only_deferred_results() {
    let mut h = Harness::new();
    h.record_compilation(CompileOutcome::Success).unwrap();
    let outcomes = vec![
        CallOutcome::Deferred,
        CallOutcome::Immediate,
        CallOutcome::Deferred,
        CallOutcome::Immediate,
        CallOutcome::Deferred,
    ];
    let assigned = h.run_batch(&outcomes).unwrap();
    assert_eq!(assigned, vec![0, 1, 2]);
    assert_eq!(h.outstanding, vec![0, 1, 2]);
    assert_eq!(h.next_id, 3);
}

#[test]
fn throwing_invocation_is_fatal_and_leaves_state_unchanged() {
    let mut h = Harness::new();
    h.record_compilation(CompileOutcome::Success).unwrap();
    h.run_batch(&batch(CallOutcome::Deferred)).unwrap();
    let outcomes = vec![
        CallOutcome::Deferred,
        CallOutcome::Deferred,
        CallOutcome::Failed,
        CallOutcome::Deferred,
        CallOutcome::Deferred,
    ];
    let r = h.run_batch(&outcomes);
    assert!(matches!(r, Err(HarnessError::CallFailure)));
    assert_eq!(h.outstanding, vec![0, 1, 2, 3, 4]);
    assert_eq!(h.next_id, 5);
}

#[test]
fn drain_removes_fulfilled_and_keeps_pending() {
    let mut h = Harness::new();
    h.record_compilation(CompileOutcome::Success).unwrap();
    h.run_batch(&batch(CallOutcome::Deferred)).unwrap();
    let obs = vec![
        DeferredObservation::Fulfilled(String::from("hello world")),
        DeferredObservation::Pending,
        DeferredObservation::Fulfilled(String::from("hello world")),
        DeferredObservation::Pending,
        DeferredObservation::Pending,
    ];
    let before = h.outstanding.len();
    let flags = h.drain(&obs).unwrap();
    assert_eq!(flags, vec![false, true, false, true, true]);
    assert_eq!(h.outstanding, vec![1, 3, 4]);
    assert_eq!(h.outstanding.len(), before - 2);
}

#[test]
fn drain_flags_wrong_fulfilled_value_as_invariant_violation() {
    let mut h = Harness::new();
    h.record_compilation(CompileOutcome::Success).unwrap();
    h.run_batch(&batch(CallOutcome::Deferred)).unwrap();
    let obs = vec![
        DeferredObservation::Pending,
        DeferredObservation::Fulfilled(String::from("goodbye world")),
        DeferredObservation::Pending,
        DeferredObservation::Pending,
        DeferredObservation::Pending,
    ];
    let r = h.drain(&obs);
    match r {
        Err(HarnessError::InvariantViolation(v)) => assert_eq!(v, "goodbye world"),
        other => panic!("expected an invariant violation, got {:?}", other),
    }
    assert_eq!(h.outstanding, vec![0, 1, 2, 3, 4]);
}

#[test]
fn rejected_results_are_retained_like_pending_ones() {
    let mut h = Harness::new();
    h.record_compilation(CompileOutcome::Success).unwrap();
    h.run_batch(&batch(CallOutcome::Deferred)).unwrap();
    let obs = vec![
        DeferredObservation::Rejected,
        DeferredObservation::Rejected,
        DeferredObservation::Pending,
        DeferredObservation::Rejected,
        DeferredObservation::Pending,
    ];
    let flags = h.drain(&obs).unwrap();
    assert_eq!(flags, vec![true, true, true, true, true]);
    assert_eq!(h.outstanding, vec![0, 1, 2, 3, 4]);
}

#[test]
fn never_settling_results_accumulate_five_per_iteration() {
    let mut h = Harness::new();
    h.record_compilation(CompileOutcome::Success).unwrap();
    let mut previous = 0;
    for round in 1..=3u64 {
        h.run_batch(&batch(CallOutcome::Deferred)).unwrap();
        let all_pending: Vec<DeferredObservation> =
            (0..h.outstanding.len()).map(|_| DeferredObservation::Pending).collect();
        let before = h.outstanding.clone();
        h.drain(&all_pending).unwrap();
        assert_eq!(h.outstanding, before);
        assert_eq!(h.outstanding.len(), 5 * round as usize);
        assert!(h.outstanding.len() >= previous);
        previous = h.outstanding.len();
        let emit = h.finish_iteration();
        assert!(!emit);
    }
    assert_eq!(h.iterations, 3);
}

#[test]
fn telemetry_is_due_exactly_on_interval_multiples() {
    let mut h = Harness {
        compiled: true,
        iterations: 9_999,
        outstanding: Vec::new(),
        next_id: 0,
    };
    assert!(h.finish_iteration());
    assert_eq!(h.iterations, 10_000);
    assert!(!h.finish_iteration());
    assert_eq!(h.iterations, 10_001);
    h.iterations = 19_999;
    assert!(h.finish_iteration());
    assert_eq!(h.iterations, 20_000);
    h.iterations = 29_998;
    assert!(!h.finish_iteration());
}

#[test]
fn record_invocation_assigns_fresh_identifiers() {
    let mut h = Harness::new();
    h.record_compilation(CompileOutcome::Success).unwrap();
    let first = h.record_invocation(CallOutcome::Deferred).unwrap();
    assert_eq!(first, Some(0));
    let none = h.record_invocation(CallOutcome::Immediate).unwrap();
    assert_eq!(none, None);
    let second = h.record_invocation(CallOutcome::Deferred).unwrap();
    assert_eq!(second, Some(1));
    let failed = h.record_invocation(CallOutcome::Failed);
    assert!(matches!(failed, Err(HarnessError::CallFailure)));
    assert_eq!(h.outstanding, vec![0, 1]);
}
