//! The harness state machine: one long-lived execution environment is
//! bootstrapped exactly once, then an iteration driver runs batches of
//! invocations, records the deferred results they hand back, and drains the
//! outstanding collection once per iteration.

use vstd::prelude::*;

use crate::observation::CallOutcome;
use crate::observation::DeferredObservation;
use crate::observation::expected_text;
use crate::observation::fulfilled_ok;
use crate::observation::is_retained;

verus! {

/// How many times the iteration driver invokes the entry function per
/// iteration.
pub const INVOCATIONS_PER_ITERATION: usize = 5;

/// A telemetry report is due every this many iterations.
pub const TELEMETRY_INTERVAL: u64 = 10000;

/// Every failure of the harness is fatal; no error is retried.
#[derive(Debug)]
pub enum HarnessError {
    /// The execution environment or the script failed to compile or
    /// instantiate at startup; carries the engine's diagnostic text.
    Startup(String),
    /// An invocation of the entry function threw.
    CallFailure,
    /// A fulfilled deferred result resolved to a value other than the
    /// expected text; carries the offending value.
    InvariantViolation(String),
}

/// What the one-time bootstrap of the execution environment reported.
#[derive(Debug)]
pub enum CompileOutcome {
    Success,
    Failure(String),
}

/// How many outcomes of a batch yielded a deferred result.
pub open spec fn deferred_count(s: Seq<CallOutcome>) -> int
    decreases s.len(),
{
    if s.len() == 0 {
        0
    } else {
        deferred_count(s.drop_last()) + if s.last() is Deferred {
            1int
        } else {
            0int
        }
    }
}

/// Whether some invocation of a batch threw.
pub open spec fn has_failure(s: Seq<CallOutcome>) -> bool {
    exists|i: int| 0 <= i < s.len() && s[i] is Failed
}

/// The identifiers a batch assigns to its deferred results: consecutive,
/// starting at the identifier counter's current value.
pub open spec fn ids_from(start: u64, n: int) -> Seq<u64> {
    Seq::new(n as nat, |i: int| (start + i) as u64)
}

/// How many outstanding deferred results are observed fulfilled.
pub open spec fn fulfilled_count(obs: Seq<DeferredObservation>) -> int
    decreases obs.len(),
{
    if obs.len() == 0 {
        0
    } else {
        fulfilled_count(obs.drop_last()) + if obs.last() is Fulfilled {
            1int
        } else {
            0int
        }
    }
}

/// The identifiers that survive one drain pass: `ids` and `obs` run in
/// parallel, and an identifier stays exactly when its observation retains
/// it (order is kept).
pub open spec fn retained_ids(ids: Seq<u64>, obs: Seq<DeferredObservation>) -> Seq<u64>
    recommends
        ids.len() == obs.len(),
    decreases obs.len(),
{
    if obs.len() == 0 || ids.len() != obs.len() {
        Seq::<u64>::empty()
    } else if is_retained(obs.last()) {
        retained_ids(ids.drop_last(), obs.drop_last()).push(ids.last())
    } else {
        retained_ids(ids.drop_last(), obs.drop_last())
    }
}

/// The harness's own state: whether the one-time bootstrap has run, the
/// iteration counter, and the identifiers of the deferred results still
/// outstanding. The engine-side handles that those identifiers stand for
/// live outside the library, in the same order.
pub struct Harness {
    /// Whether the execution environment and the compiled unit exist.
    pub compiled: bool,
    /// How many iterations the driver has completed.
    pub iterations: u64,
    /// Identifiers of the deferred results not yet observed fulfilled, in
    /// the order they were recorded.
    pub outstanding: Vec<u64>,
    /// The next identifier to hand out; identifiers are never reused.
    pub next_id: u64,
}

impl Harness {
    /// Well-formedness: outstanding identifiers are strictly increasing
    /// (hence unique) and all below the identifier counter.
    pub open spec fn wf(self) -> bool {
        &&& forall|a: int, b: int|
            0 <= a < b < self.outstanding@.len() ==> self.outstanding@[a] < self.outstanding@[b]
        &&& forall|a: int| 0 <= a < self.outstanding@.len() ==> self.outstanding@[a] < self.next_id
    }

    /// A fresh harness: nothing compiled yet, no iterations run, nothing
    /// outstanding.
    pub fn new() -> (h: Harness)
        ensures
            h.wf(),
            !h.compiled,
            h.iterations == 0,
            h.outstanding@ == Seq::<u64>::empty(),
            h.next_id == 0,
    {
        Harness { compiled: false, iterations: 0, outstanding: Vec::new(), next_id: 0 }
    }

    /// Whether the one-time bootstrap may still run.
    pub open spec fn bootstrap_allowed(self) -> bool {
        !self.compiled
    }

    /// Records the outcome of the one-time bootstrap of the execution
    /// environment and the compiled unit. A failure is fatal: it carries
    /// the engine's diagnostic text and leaves the harness uncompiled.
    pub fn record_compilation(&mut self, outcome: CompileOutcome) -> (r: Result<(), HarnessError>)
        requires
            old(self).wf(),
            old(self).bootstrap_allowed(),
        ensures
            final(self).wf(),
            final(self).iterations == old(self).iterations,
            final(self).outstanding@ == old(self).outstanding@,
            final(self).next_id == old(self).next_id,
            outcome is Success ==> r is Ok && final(self).compiled,
            outcome matches CompileOutcome::Failure(d) ==> {
                &&& !final(self).compiled
                &&& r == Err::<(), HarnessError>(HarnessError::Startup(d))
            },
    {
        match outcome {
            CompileOutcome::Success => {
                self.compiled = true;
                Ok(())
            },
            CompileOutcome::Failure(d) => Err(HarnessError::Startup(d)),
        }
    }

    /// Records what one invocation of the entry function handed back: a
    /// deferred result is assigned a fresh identifier and joins the
    /// outstanding collection; an immediate value is discarded without
    /// inspection; a throwing invocation is a fatal error.
    pub fn record_invocation(&mut self, outcome: CallOutcome) -> (r: Result<
        Option<u64>,
        HarnessError,
    >)
        requires
            old(self).wf(),
            old(self).compiled,
            old(self).next_id < u64::MAX,
        ensures
            final(self).wf(),
            final(self).compiled,
            final(self).iterations == old(self).iterations,
            outcome is Deferred ==> {
                &&& r == Ok::<Option<u64>, HarnessError>(Some(old(self).next_id))
                &&& final(self).outstanding@ == old(self).outstanding@.push(old(self).next_id)
                &&& final(self).next_id == old(self).next_id + 1
            },
            outcome is Immediate ==> {
                &&& r == Ok::<Option<u64>, HarnessError>(None)
                &&& final(self).outstanding@ == old(self).outstanding@
                &&& final(self).next_id == old(self).next_id
            },
            outcome is Failed ==> {
                &&& r == Err::<Option<u64>, HarnessError>(HarnessError::CallFailure)
                &&& final(self).outstanding@ == old(self).outstanding@
                &&& final(self).next_id == old(self).next_id
            },
    {
        match outcome {
            CallOutcome::Deferred => {
                let id = self.next_id;
                self.outstanding.push(id);
                self.next_id = self.next_id + 1;
                Ok(Some(id))
            },
            CallOutcome::Immediate => Ok(None),
            CallOutcome::Failed => Err(HarnessError::CallFailure),
        }
    }

    /// Runs the bookkeeping of one iteration's batch: exactly
    /// `INVOCATIONS_PER_ITERATION` invocation outcomes, in program order.
    /// If any invocation threw, the whole batch is a fatal error and the
    /// harness is left unchanged. Otherwise every deferred result joins the
    /// outstanding collection and the identifiers assigned to them are
    /// returned, in order; immediate values are discarded.
    pub fn run_batch(&mut self, outcomes: &Vec<CallOutcome>) -> (r: Result<Vec<u64>, HarnessError>)
        requires
            old(self).wf(),
            old(self).compiled,
            outcomes@.len() == INVOCATIONS_PER_ITERATION as int,
            old(self).next_id as int + INVOCATIONS_PER_ITERATION as int <= u64::MAX as int,
        ensures
            final(self).wf(),
            final(self).compiled,
            final(self).iterations == old(self).iterations,
            r is Ok <==> !has_failure(outcomes@),
            r is Err ==> {
                &&& r == Err::<Vec<u64>, HarnessError>(HarnessError::CallFailure)
                &&& final(self).outstanding@ == old(self).outstanding@
                &&& final(self).next_id == old(self).next_id
            },
            r matches Ok(assigned) ==> {
                &&& assigned@ == ids_from(old(self).next_id, deferred_count(outcomes@))
                &&& final(self).outstanding@ == old(self).outstanding@ + ids_from(
                    old(self).next_id,
                    deferred_count(outcomes@),
                )
                &&& final(self).next_id == old(self).next_id + deferred_count(outcomes@)
            },
            (forall|j: int| 0 <= j < outcomes@.len() ==> outcomes@[j] is Deferred) ==> {
                &&& r is Ok
                &&& final(self).outstanding@.len() == old(self).outstanding@.len()
                    + INVOCATIONS_PER_ITERATION as int
            },
    {
        let mut k: usize = 0;
        while k < outcomes.len()
            invariant
                outcomes@.len() == INVOCATIONS_PER_ITERATION as int,
                0 <= k <= outcomes@.len(),
                forall|j: int| 0 <= j < k ==> !(outcomes@[j] is Failed),
                self.wf(),
                self.compiled,
                self.iterations == old(self).iterations,
                self.outstanding@ == old(self).outstanding@,
                self.next_id == old(self).next_id,
            decreases outcomes@.len() - k,
        {
            match outcomes[k] {
                CallOutcome::Failed => {
                    proof {
                        assert(outcomes@[k as int] is Failed);
                    }
                    return Err(HarnessError::CallFailure);
                },
                _ => {},
            }
            k += 1;
        }
        let ghost start_id = self.next_id;
        let ghost start_out = self.outstanding@;
        let mut assigned: Vec<u64> = Vec::new();
        let mut i: usize = 0;
        while i < outcomes.len()
            invariant
                self.wf(),
                self.compiled,
                self.iterations == old(self).iterations,
                outcomes@.len() == INVOCATIONS_PER_ITERATION as int,
                0 <= i <= outcomes@.len(),
                forall|j: int| 0 <= j < outcomes@.len() ==> !(outcomes@[j] is Failed),
                start_id as int + INVOCATIONS_PER_ITERATION as int <= u64::MAX as int,
                start_id <= self.next_id <= start_id as int + i as int,
                self.next_id == start_id as int + deferred_count(outcomes@.take(i as int)),
                assigned@ == ids_from(start_id, deferred_count(outcomes@.take(i as int))),
                self.outstanding@ == start_out + assigned@,
            decreases outcomes@.len() - i,
        {
            let o = outcomes[i];
            proof {
                assert(outcomes@.take(i as int + 1).drop_last() =~= outcomes@.take(i as int));
                assert(outcomes@.take(i as int + 1).last() == outcomes@[i as int]);
            }
            match self.record_invocation(o) {
                Ok(Some(id)) => {
                    assigned.push(id);
                    proof {
                        assert(assigned@ =~= ids_from(
                            start_id,
                            deferred_count(outcomes@.take(i as int + 1)),
                        ));
                    }
                },
                Ok(None) => {},
                Err(_) => {
                    proof {
                        assert(outcomes@[i as int] is Failed);
                        assert(false);
                    }
                },
            }
            i += 1;
        }
        proof {
            assert(outcomes@.take(outcomes@.len() as int) =~= outcomes@);
            if forall|j: int| 0 <= j < outcomes@.len() ==> outcomes@[j] is Deferred {
                lemma_deferred_count_all_deferred(outcomes@);
            }
        }
        Ok(assigned)
    }

    /// Drains the outstanding collection once, synchronously: `obs` gives
    /// the observed state of each outstanding deferred result, in the
    /// collection's order. Every result observed fulfilled leaves the
    /// collection; pending and rejected ones stay. A fulfilled result whose
    /// coerced text differs from the expected text is a fatal invariant
    /// violation and the harness is left unchanged. On success the returned
    /// flags say, position by position, which results were retained.
    pub fn drain(&mut self, obs: &Vec<DeferredObservation>) -> (r: Result<Vec<bool>, HarnessError>)
        requires
            old(self).wf(),
            old(self).compiled,
            obs@.len() == old(self).outstanding@.len(),
        ensures
            final(self).wf(),
            final(self).compiled,
            final(self).iterations == old(self).iterations,
            final(self).next_id == old(self).next_id,
            r is Ok <==> (forall|i: int| 0 <= i < obs@.len() ==> fulfilled_ok(obs@[i])),
            r matches Ok(flags) ==> {
                &&& flags@.len() == obs@.len()
                &&& (forall|i: int| 0 <= i < obs@.len() ==> flags@[i] == is_retained(obs@[i]))
                &&& final(self).outstanding@ == retained_ids(old(self).outstanding@, obs@)
            },
            r matches Err(e) ==> {
                &&& final(self).outstanding@ == old(self).outstanding@
                &&& e matches HarnessError::InvariantViolation(v)
                &&& v@ != expected_text()
                &&& (exists|i: int|
                    0 <= i < obs@.len() && obs@[i] == DeferredObservation::Fulfilled(v))
            },
    {
        let expected = String::from_str("hello world");
        let mut i: usize = 0;
        while i < obs.len()
            invariant
                expected@ == expected_text(),
                0 <= i <= obs@.len(),
                forall|j: int| 0 <= j < i ==> fulfilled_ok(obs@[j]),
                self.wf(),
                self.compiled,
                self.iterations == old(self).iterations,
                self.outstanding@ == old(self).outstanding@,
                self.next_id == old(self).next_id,
                obs@.len() == old(self).outstanding@.len(),
            decreases obs@.len() - i,
        {
            match &obs[i] {
                DeferredObservation::Fulfilled(v) => {
                    if !(*v == expected) {
                        proof {
                            assert(obs@[i as int] == DeferredObservation::Fulfilled(*v));
                            assert(!fulfilled_ok(obs@[i as int]));
                        }
                        return Err(HarnessError::InvariantViolation(v.clone()));
                    }
                },
                _ => {},
            }
            i += 1;
        }
        let mut flags: Vec<bool> = Vec::new();
        let mut kept: Vec<u64> = Vec::new();
        let mut i: usize = 0;
        while i < obs.len()
            invariant
                0 <= i <= obs@.len(),
                self.wf(),
                self.compiled,
                self.iterations == old(self).iterations,
                self.outstanding@ == old(self).outstanding@,
                self.next_id == old(self).next_id,
                obs@.len() == old(self).outstanding@.len(),
                forall|j: int| 0 <= j < obs@.len() ==> fulfilled_ok(obs@[j]),
                flags@.len() == i,
                forall|j: int| 0 <= j < i ==> flags@[j] == is_retained(obs@[j]),
                kept@ == retained_ids(
                    old(self).outstanding@.take(i as int),
                    obs@.take(i as int),
                ),
            decreases obs@.len() - i,
        {
            proof {
                assert(obs@.take(i as int + 1).drop_last() =~= obs@.take(i as int));
                assert(old(self).outstanding@.take(i as int + 1).drop_last() =~= old(
                    self,
                ).outstanding@.take(i as int));
                assert(obs@.take(i as int + 1).last() == obs@[i as int]);
                assert(old(self).outstanding@.take(i as int + 1).last() == old(
                    self,
                ).outstanding@[i as int]);
            }
            let keep_it = match &obs[i] {
                DeferredObservation::Fulfilled(_) => false,
                _ => true,
            };
            flags.push(keep_it);
            if keep_it {
                let id = self.outstanding[i];
                kept.push(id);
            }
            i += 1;
        }
        proof {
            assert(obs@.take(obs@.len() as int) =~= obs@);
            assert(old(self).outstanding@.take(old(self).outstanding@.len() as int) =~= old(
                self,
            ).outstanding@);
            lemma_retained_ids_bounds(old(self).outstanding@, obs@, old(self).next_id);
        }
        self.outstanding = kept;
        Ok(flags)
    }

    /// Ends one iteration: increments the iteration counter and says
    /// whether a telemetry report is due, which is the case exactly on
    /// every `TELEMETRY_INTERVAL`-th iteration. Telemetry never alters the
    /// harness state beyond this counter.
    pub fn finish_iteration(&mut self) -> (emit: bool)
        requires
            old(self).wf(),
            old(self).compiled,
            old(self).iterations < u64::MAX,
        ensures
            final(self).wf(),
            final(self).compiled,
            final(self).iterations == old(self).iterations + 1,
            final(self).outstanding@ == old(self).outstanding@,
            final(self).next_id == old(self).next_id,
            emit == (final(self).iterations % TELEMETRY_INTERVAL == 0),
    {
        self.iterations = self.iterations + 1;
        self.iterations % TELEMETRY_INTERVAL == 0
    }
}

/// A batch in which every invocation yields a deferred result has as many
/// deferred results as invocations.
proof fn lemma_deferred_count_all_deferred(s: Seq<CallOutcome>)
    requires
        forall|j: int| 0 <= j < s.len() ==> s[j] is Deferred,
    ensures
        deferred_count(s) == s.len(),
    decreases s.len(),
{
    if s.len() > 0 {
        assert(forall|j: int| 0 <= j < s.drop_last().len() ==> s.drop_last()[j] is Deferred);
        lemma_deferred_count_all_deferred(s.drop_last());
    }
}

/// Every identifier a drain pass retains was in the collection before it,
/// at a position whose observation retains it.
proof fn lemma_retained_ids_from_ids(ids: Seq<u64>, obs: Seq<DeferredObservation>)
    requires
        ids.len() == obs.len(),
    ensures
        forall|x: u64|
            retained_ids(ids, obs).contains(x) ==> (exists|j: int|
                0 <= j < obs.len() && is_retained(obs[j]) && ids[j] == x),
    decreases obs.len(),
{
    if obs.len() > 0 {
        lemma_retained_ids_from_ids(ids.drop_last(), obs.drop_last());
        assert forall|x: u64| retained_ids(ids, obs).contains(x) implies (exists|j: int|
            0 <= j < obs.len() && is_retained(obs[j]) && ids[j] == x) by {
            if is_retained(obs.last()) && x == ids.last() {
                assert(is_retained(obs[obs.len() - 1]) && ids[obs.len() - 1] == x);
            } else {
                let prev = retained_ids(ids.drop_last(), obs.drop_last());
                assert(prev.contains(x));
                let j = choose|j: int|
                    0 <= j < obs.drop_last().len() && is_retained(obs.drop_last()[j])
                        && ids.drop_last()[j] == x;
                assert(0 <= j < obs.len() && is_retained(obs[j]) && ids[j] == x);
            }
        }
    }
}

/// If the outstanding identifiers are strictly increasing and below the
/// identifier counter, so are the identifiers a drain pass retains.
proof fn lemma_retained_ids_bounds(ids: Seq<u64>, obs: Seq<DeferredObservation>, bound: u64)
    requires
        ids.len() == obs.len(),
        forall|a: int, b: int| 0 <= a < b < ids.len() ==> ids[a] < ids[b],
        forall|a: int| 0 <= a < ids.len() ==> ids[a] < bound,
    ensures
        forall|a: int, b: int|
            0 <= a < b < retained_ids(ids, obs).len() ==> retained_ids(ids, obs)[a] < retained_ids(
                ids,
                obs,
            )[b],
        forall|a: int| 0 <= a < retained_ids(ids, obs).len() ==> retained_ids(ids, obs)[a] < bound,
    decreases obs.len(),
{
    if obs.len() > 0 {
        lemma_retained_ids_bounds(ids.drop_last(), obs.drop_last(), bound);
        lemma_retained_ids_from_ids(ids.drop_last(), obs.drop_last());
        let prev = retained_ids(ids.drop_last(), obs.drop_last());
        if is_retained(obs.last()) {
            assert forall|a: int| 0 <= a < prev.len() implies prev[a] < ids.last() by {
                assert(prev.contains(prev[a]));
                let j = choose|j: int|
                    0 <= j < obs.drop_last().len() && is_retained(obs.drop_last()[j])
                        && ids.drop_last()[j] == prev[a];
                assert(ids[j] < ids[ids.len() - 1]);
            }
        }
    }
}

/// Drain correctness: one drain pass removes exactly the identifiers whose
/// observations are fulfilled and keeps all the others, so the retained
/// count is the previous count minus the fulfilled count; every retained
/// position's identifier is still present, and everything present came from
/// a retained position.
pub proof fn lemma_drain_retains_exactly(ids: Seq<u64>, obs: Seq<DeferredObservation>)
    requires
        ids.len() == obs.len(),
    ensures
        retained_ids(ids, obs).len() == ids.len() - fulfilled_count(obs),
        forall|i: int|
            0 <= i < obs.len() && is_retained(obs[i]) ==> retained_ids(ids, obs).contains(ids[i]),
        forall|x: u64|
            retained_ids(ids, obs).contains(x) ==> (exists|j: int|
                0 <= j < obs.len() && is_retained(obs[j]) && ids[j] == x),
    decreases obs.len(),
{
    lemma_retained_ids_from_ids(ids, obs);
    if obs.len() > 0 {
        lemma_drain_retains_exactly(ids.drop_last(), obs.drop_last());
        let prev = retained_ids(ids.drop_last(), obs.drop_last());
        assert forall|i: int|
            0 <= i < obs.len() && is_retained(obs[i]) implies retained_ids(ids, obs).contains(
            ids[i],
        ) by {
            if i == obs.len() - 1 {
                assert(retained_ids(ids, obs).last() == ids.last());
                assert(retained_ids(ids, obs).contains(ids[i]));
            } else {
                assert(is_retained(obs.drop_last()[i]) && ids.drop_last()[i] == ids[i]);
                assert(prev.contains(ids[i]));
                let j = choose|j: int| 0 <= j < prev.len() && prev[j] == ids[i];
                assert(retained_ids(ids, obs)[j] == ids[i]);
                assert(retained_ids(ids, obs).contains(ids[i]));
            }
        }
    }
}

/// An identifier whose observation is fulfilled does not survive the drain
/// pass, provided the outstanding identifiers are strictly increasing (as
/// the harness keeps them).
pub proof fn lemma_drain_removes_fulfilled(ids: Seq<u64>, obs: Seq<DeferredObservation>)
    requires
        ids.len() == obs.len(),
        forall|a: int, b: int| 0 <= a < b < ids.len() ==> ids[a] < ids[b],
    ensures
        forall|i: int|
            0 <= i < obs.len() && !is_retained(obs[i]) ==> !retained_ids(ids, obs).contains(
                ids[i],
            ),
{
    lemma_retained_ids_from_ids(ids, obs);
    assert forall|i: int|
        0 <= i < obs.len() && !is_retained(obs[i]) implies !retained_ids(ids, obs).contains(
        ids[i],
    ) by {
        if retained_ids(ids, obs).contains(ids[i]) {
            let j = choose|j: int|
                0 <= j < obs.len() && is_retained(obs[j]) && ids[j] == ids[i];
            assert(j != i);
            if j < i {
                assert(ids[j] < ids[i]);
            } else {
                assert(ids[i] < ids[j]);
            }
        }
    }
}

/// Outstanding-set monotonicity: a drain pass over observations none of
/// which has settled removes nothing — the outstanding collection comes out
/// exactly as it went in.
pub proof fn lemma_pending_drain_is_identity(ids: Seq<u64>, obs: Seq<DeferredObservation>)
    requires
        ids.len() == obs.len(),
        forall|i: int| 0 <= i < obs.len() ==> obs[i] is Pending,
    ensures
        retained_ids(ids, obs) == ids,
    decreases obs.len(),
{
    if obs.len() > 0 {
        assert(forall|i: int|
            0 <= i < obs.drop_last().len() ==> obs.drop_last()[i] is Pending);
        lemma_pending_drain_is_identity(ids.drop_last(), obs.drop_last());
        assert(obs.last() is Pending);
        assert(retained_ids(ids, obs) =~= ids);
    } else {
        assert(retained_ids(ids, obs) =~= ids);
    }
}

/// Single compilation: the bootstrap step demands a harness on which it has
/// not yet run, and every per-iteration operation keeps the harness
/// compiled, so across any run of the driver the bootstrap executes at most
/// once — after it has succeeded it is never enabled again.
pub proof fn lemma_single_compilation(h: Harness)
    requires
        h.compiled,
    ensures
        !h.bootstrap_allowed(),
{
}

} // verus!
