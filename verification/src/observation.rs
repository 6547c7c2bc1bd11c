//! Observations the driver makes of one invocation of the entry function and
//! of one outstanding deferred result.

use vstd::prelude::*;

verus! {

/// What one invocation of the entry function handed back.
#[derive(Clone, Copy, Debug)]
pub enum CallOutcome {
    /// The invocation returned a deferred result; it must be recorded in the
    /// outstanding collection and drained later.
    Deferred,
    /// The invocation returned an immediate value; the harness discards it
    /// without inspection.
    Immediate,
    /// The invocation threw; the harness treats this as fatal.
    Failed,
}

/// The observable state of one outstanding deferred result at drain time.
/// A fulfilled result carries its resolved value coerced to text.
#[derive(Debug)]
pub enum DeferredObservation {
    Pending,
    Rejected,
    Fulfilled(String),
}

/// The text every fulfilled deferred result is required to resolve to.
pub open spec fn expected_text() -> Seq<char> {
    "hello world"@
}

/// A drain pass removes a deferred result only once it is observed
/// fulfilled; pending results stay, and a rejected result is not
/// distinguished from a pending one.
pub open spec fn is_retained(o: DeferredObservation) -> bool {
    !(o is Fulfilled)
}

/// A fulfilled observation passes the drain's invariant check exactly when
/// its coerced text equals the expected text; the check does not look at
/// pending or rejected observations.
pub open spec fn fulfilled_ok(o: DeferredObservation) -> bool {
    o matches DeferredObservation::Fulfilled(v) ==> v@ == expected_text()
}

} // verus!
