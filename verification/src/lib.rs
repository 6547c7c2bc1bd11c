//! A verified model of a diagnostic harness that repeatedly invokes the
//! entry function of a compiled script and tracks the deferred results the
//! invocations hand back.
//!
//! The library holds the harness's decisions: what to record of each
//! invocation, which outstanding deferred results a drain pass removes,
//! when telemetry is due, and the exact text of the telemetry report.
//! The embedding of the script engine itself stays outside the library.

mod harness;
mod loader;
mod observation;
mod telemetry;

pub use loader::compile_error_message;
pub use loader::compile_error_text;
pub use loader::resolve_module_imports;

pub use harness::CompileOutcome;
pub use harness::Harness;
pub use harness::HarnessError;
pub use harness::INVOCATIONS_PER_ITERATION;
pub use harness::TELEMETRY_INTERVAL;
pub use harness::deferred_count;
pub use harness::fulfilled_count;
pub use harness::has_failure;
pub use harness::ids_from;
pub use harness::lemma_drain_removes_fulfilled;
pub use harness::lemma_drain_retains_exactly;
pub use harness::lemma_pending_drain_is_identity;
pub use harness::lemma_single_compilation;
pub use harness::retained_ids;

pub use telemetry::digit_char;
pub use telemetry::spec_decimal;
pub use telemetry::telemetry_report;
pub use telemetry::telemetry_text;
pub use telemetry::u64_to_decimal;

pub use observation::CallOutcome;
pub use observation::DeferredObservation;
pub use observation::expected_text;
pub use observation::fulfilled_ok;
pub use observation::is_retained;
