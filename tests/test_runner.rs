use latte::test_runner::{DiagnosticSeverity, TestRunner, TestStatus};

fn runner() -> TestRunner {
    TestRunner::new("/path/to/bench".to_string(), "test.local".to_string())
}

#[test]
fn test_clean_error_message() {
    let runner = TestRunner::new("/path/to/bench".to_string(), "test.local".to_string());
    let error = "Traceback (most recent call last):\n  File \"test.py\", line 10\n    assert False\nAssertionError: Test failed";

    let clean = runner.clean_error_message(error);
    assert_eq!(clean, "AssertionError: Test failed");
}

#[test]
fn clean_error_message_fallbacks() {
    let r = runner();
    assert_eq!(r.clean_error_message("  File \"a.py\", line 1\n\n"), "  File \"a.py\", line 1\n\n");
    let long = format!("File {}", "x".repeat(300));
    let cleaned = r.clean_error_message(&long);
    assert_eq!(cleaned, format!("{}...", &long[..200]));
    assert_eq!(r.clean_error_message("  padded message  \n"), "padded message");
}

#[test]
fn traceback_is_cut_at_the_exception() {
    let r = runner();
    let out = "noise\nTraceback (most recent call last):\n  File \"t.py\", line 3, in f\n    boom()\nValueError: bad\nafter";
    assert_eq!(
        r.parse_traceback(out),
        vec![
            "Traceback (most recent call last):".to_string(),
            "  File \"t.py\", line 3, in f".to_string(),
            "    boom()".to_string(),
            "ValueError: bad".to_string(),
        ]
    );
    assert!(r.parse_traceback("all fine\nno trace").is_empty());
}

#[test]
fn running_tests_are_tracked() {
    let mut r = runner();
    assert!(r.get_running_tests().is_empty());
    r.mark_running("app::1".to_string());
    r.mark_running("app::2".to_string());
    r.mark_running("app::1".to_string());
    assert_eq!(r.get_running_tests(), vec!["app::1".to_string(), "app::2".to_string()]);
    assert!(r.is_test_running("app::2"));
    r.mark_finished("app::2");
    assert!(!r.is_test_running("app::2"));
    assert_eq!(r.stop_running_tests(), Ok(()));
    assert!(r.get_running_tests().is_empty());
    assert!(!r.is_test_running("app::1"));
}

#[test]
fn statuses_and_patterns() {
    assert_eq!(TestStatus::Skipped.to_string(), "skipped");
    assert_eq!(TestStatus::Error.to_string(), "error");
    let p = runner().get_test_patterns();
    assert_eq!(p.len(), 4);
    assert_eq!(p[0].pattern, "FAILED.*AssertionError");
    assert_eq!(p[3].severity, DiagnosticSeverity::Warning);
}

#[test]
fn error_location_and_diagnostic() {
    let r = runner();
    let msg = "Traceback:\n  File \"/app/t.py\", line 12, in test\nAssertionError: nope";
    assert_eq!(r.extract_error_location(msg), (Some(12), Some("/app/t.py".to_string())));
    assert_eq!(r.extract_error_location("no location"), (None, None));
    let d = r.create_diagnostic_from_error(TestStatus::Failed, Some("tests/t.py"), msg);
    assert_eq!(d.file_path, "/app/t.py");
    assert_eq!(d.line_number, 12);
    assert_eq!(d.message, "AssertionError: nope");
    assert_eq!(d.severity, DiagnosticSeverity::Warning);
    assert_eq!(d.code, Some("test_failed".to_string()));
    assert_eq!(d.source, "frappe_test_runner");
    let d = r.create_diagnostic_from_error(TestStatus::Error, Some("tests/t.py"), "boom");
    assert_eq!(d.file_path, "tests/t.py");
    assert_eq!(d.line_number, 1);
    assert_eq!(d.severity, DiagnosticSeverity::Error);
    assert_eq!(d.code, Some("test_error".to_string()));
}

#[test]
fn pytest_and_unittest_lines_are_read() {
    let r = runner();
    let patterns = r.get_test_patterns();
    let t = r
        .parse_test_line(
            "test_app/test_doctype.py::TestDocType::test_create PASSED [0.123s]",
            "test_app",
            &patterns,
        )
        .unwrap();
    assert_eq!(t.status, TestStatus::Passed);
    assert_eq!(t.test_name, "TestDocType::test_create");
    assert_eq!(t.module, "TestDocType");
    assert_eq!(t.app, "test_app");
    assert_eq!(t.duration_text, Some("0.123".to_string()));
    assert_eq!(t.file_path, Some("test_app/test_doctype.py".to_string()));
    let t = r
        .parse_test_line("test_save (shop_tests.TestOrder) ... FAIL", "shop", &patterns)
        .unwrap();
    assert_eq!(t.status, TestStatus::Failed);
    assert_eq!(t.test_name, "test_save");
    assert_eq!(t.module, "shop_tests.TestOrder");
    assert_eq!(t.duration_text, None);
    assert!(r.parse_test_line("Ran 3 tests in 0.1s", "shop", &patterns).is_none());
}

#[test]
fn output_is_tallied() {
    let r = runner();
    let stdout = "a.py::A::t1 PASSED\nb.py::B::t2 SKIPPED\nnoise\n";
    let stderr = "t3 (m.C) ... ERROR\nt4 (m.C) ... ok\nc.py::C::t5 FAILED\nt6 (a.b.C) ... ok\n";
    let lines = r.parse_test_lines("app", stdout, stderr);
    let names: Vec<String> = lines.iter().map(|t| t.test_name.clone()).collect();
    assert_eq!(names, vec!["A::t1", "B::t2", "t3", "t4", "C::t5"]);
    let tally = TestRunner::tally(&lines);
    assert_eq!(
        (tally.total_tests, tally.passed, tally.failed, tally.errors, tally.skipped),
        (5, 2, 1, 1, 1)
    );
}

#[test]
fn single_test_outcomes() {
    let r = runner();
    let t = r.parse_single_test_result("tests/x.py", "x.py::X::t PASSED", "");
    assert_eq!(t.test_name, "tests/x.py");
    assert_eq!(t.status, TestStatus::Passed);
    assert_eq!(t.module, "X");
    let t = r.parse_single_test_result("tests/x.py", "OK", "");
    assert_eq!(t.status, TestStatus::Passed);
    assert_eq!(t.error_message, None);
    assert_eq!(t.file_path, Some("tests/x.py".to_string()));
    let t = r.parse_single_test_result("tests/x.py", "OK", "ERROR: boom");
    assert_eq!(t.status, TestStatus::Failed);
    assert_eq!(t.error_message, Some("ERROR: boom".to_string()));
    let t = r.parse_single_test_result("tests/x.py", "", "");
    assert_eq!(t.status, TestStatus::Error);
}

#[test]
fn commands_ids_and_selected_diagnostics() {
    let r = runner();
    assert_eq!(
        r.app_tests_command("shop"),
        "cd /path/to/bench && bench --site test.local run-tests --app shop --verbose"
    );
    assert_eq!(
        r.specific_test_command("shop", "shop.tests.test_x"),
        "cd /path/to/bench && bench --site test.local run-tests --app shop --test shop.tests.test_x"
    );
    assert_eq!(TestRunner::run_id("shop", 1700000001), "shop::1700000001");
    assert!(TestRunner::fresh_run_id("shop").starts_with("shop::"));
    assert!(r.diagnostic_for_result(TestStatus::Passed, None, Some("x")).is_none());
    assert!(r.diagnostic_for_result(TestStatus::Failed, None, None).is_none());
    let d = r
        .diagnostic_for_result(TestStatus::Failed, None, Some("AssertionError: no"))
        .unwrap();
    assert_eq!(d.file_path, "");
    assert_eq!(d.message, "AssertionError: no");
    assert_eq!(r.bench_path(), "/path/to/bench");
    assert_eq!(r.site_name(), "test.local");
}
