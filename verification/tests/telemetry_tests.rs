use promise_harness::compile_error_message;
use promise_harness::resolve_module_imports;
use promise_harness::telemetry_report;
use promise_harness::u64_to_decimal;

#[test]
fn decimal_rendering_of_small_numbers() {
    assert_eq!(u64_to_decimal(0), "0");
    assert_eq!(u64_to_decimal(7), "7");
    assert_eq!(u64_to_decimal(10), "10");
    assert_eq!(u64_to_decimal(407), "407");
    assert_eq!(u64_to_decimal(10_000), "10000");
}

#[test]
fn decimal_rendering_of_the_largest_counter() {
    assert_eq!(u64_to_decimal(u64::MAX), "18446744073709551615");
}

#[test]
fn telemetry_report_text_is_exact() {
    let r = telemetry_report(1024, 4096, 15);
    assert_eq!(
        r,
        "Used Heap Size: 1024\nTotal Heap Size: 4096\nUnresolved Promises: 15\n----------------\n\n"
    );
}

#[test]
fn telemetry_report_with_zero_counters() {
    let r = telemetry_report(0, 0, 0);
    assert_eq!(
        r,
        "Used Heap Size: 0\nTotal Heap Size: 0\nUnresolved Promises: 0\n----------------\n\n"
    );
}

#[test]
fn every_import_request_is_refused() {
    assert_eq!(resolve_module_imports("some-module"), None);
    assert_eq!(resolve_module_imports(""), None);
}

#[test]
fn compile_errors_frame_the_engine_diagnostic() {
    let m = compile_error_message("SyntaxError: Unexpected token");
    assert_eq!(m, "Exception: SyntaxError: Unexpected token\n\n");
    assert_eq!(compile_error_message(""), "Exception: \n\n");
}
