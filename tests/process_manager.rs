use latte::bench::{bench_process_id, dev_server_request, migrate_request, simple_request};
use latte::manager::{PollOutcome, ProcessError, ProcessManager, SpawnRequest};
use latte::process::{ErrorType, LogLevel, LogSource, ProcessStatus, Timestamp};

fn at(secs: u64) -> Timestamp {
    Timestamp { secs, nanos: 0 }
}

fn request(id: &str) -> SpawnRequest {
    simple_request(id.to_string(), "/tmp", "sleep", vec!["10".to_string()])
}

fn manager_with(ids: &[&str]) -> ProcessManager {
    let mut m = ProcessManager::new();
    for (k, id) in ids.iter().enumerate() {
        m.record_spawned(&request(id), 100 + k as u32, at(1));
    }
    m
}

#[test]
fn test_process_manager_creation() {
    let manager = ProcessManager::new();
    assert_eq!(manager.list_processes().len(), 0);
}

#[test]
fn test_detect_log_level() {
    assert_eq!(
        ProcessManager::detect_log_level("ERROR: Something went wrong"),
        LogLevel::Error
    );
    assert_eq!(
        ProcessManager::detect_log_level("Warning: This is a warning"),
        LogLevel::Warning
    );
    assert_eq!(
        ProcessManager::detect_log_level("Info: Normal message"),
        LogLevel::Info
    );
}

#[test]
fn test_parse_error_line() {
    let manager = ProcessManager::new();
    let line = r#"File "/path/to/file.py", line 42"#;

    let error = manager.parse_error_line(line);
    assert!(error.is_some());

    let error = error.unwrap();
    assert_eq!(error.file_path, "/path/to/file.py");
    assert_eq!(error.line_number, 42);
}

#[test]
fn classification_scenarios() {
    assert_eq!(ProcessManager::detect_log_level("ERROR: disk full"), LogLevel::Error);
    assert_eq!(ProcessManager::detect_log_level("Warning: deprecated"), LogLevel::Warning);
    assert_eq!(ProcessManager::detect_log_level("Starting server..."), LogLevel::Info);
    assert_eq!(ProcessManager::detect_log_level("Unhandled Exception"), LogLevel::Error);
    assert_eq!(ProcessManager::detect_log_level("DEBUG mode on"), LogLevel::Debug);
    assert_eq!(ProcessManager::detect_log_level("stack TRACE follows"), LogLevel::Trace);
    assert_eq!(ProcessManager::detect_log_level("warn: debug and error"), LogLevel::Error);
    assert_eq!(ProcessManager::detect_log_level("warn then debug"), LogLevel::Warning);
}

#[test]
fn python_location_scenario() {
    let m = ProcessManager::new();
    let e = m.parse_error_line(r#"File "/app/models.py", line 42"#).unwrap();
    assert_eq!(e.file_path, "/app/models.py");
    assert_eq!(e.line_number, 42);
    assert_eq!(e.error_type, ErrorType::PythonTraceback);
    assert_eq!(e.message, r#"File "/app/models.py", line 42"#);
}

#[test]
fn javascript_location_and_no_location() {
    let m = ProcessManager::new();
    let e = m
        .parse_error_line("    at render (/app/src/view.js:17:5)")
        .unwrap();
    assert_eq!(e.file_path, "/app/src/view.js");
    assert_eq!(e.line_number, 17);
    assert_eq!(e.error_type, ErrorType::JavaScriptError);
    assert!(m.parse_error_line("Error: something broke").is_none());
    assert!(m
        .parse_error_line(r#"File "/a.py", line 99999999999"#)
        .is_none());
}

#[test]
fn clickable_error_from_given_captures() {
    let py = Some(vec![
        Some("whole".to_string()),
        Some("/x.py".to_string()),
        Some("7".to_string()),
    ]);
    let e = ProcessManager::clickable_error_from_captures("line", py, None).unwrap();
    assert_eq!(e.file_path, "/x.py");
    assert_eq!(e.line_number, 7);
    assert_eq!(e.message, "line");
    let bad = Some(vec![Some("w".to_string()), Some("/x.py".to_string()), Some("x".to_string())]);
    let js = Some(vec![
        Some("w".to_string()),
        Some("f".to_string()),
        Some("/y.js".to_string()),
        Some("3".to_string()),
    ]);
    assert!(ProcessManager::clickable_error_from_captures("line", bad, js.clone()).is_none());
    let e = ProcessManager::clickable_error_from_captures("line", None, js).unwrap();
    assert_eq!(e.error_type, ErrorType::JavaScriptError);
    assert_eq!(e.line_number, 3);
}

#[test]
fn spawned_process_is_listed_as_starting() {
    let mut m = ProcessManager::new();
    m.record_spawned(&request("p1"), 4242, at(5));
    let list = m.list_processes();
    assert_eq!(list.len(), 1);
    assert_eq!(list[0].id, "p1");
    assert_eq!(list[0].status, ProcessStatus::Starting);
    assert_eq!(list[0].pid, Some(4242));
    assert_eq!(list[0].command, "sleep");
    assert_eq!(list[0].args, vec!["10".to_string()]);
    m.record_spawned(&request("p1"), 4343, at(6));
    assert_eq!(m.list_processes().len(), 1);
    assert_eq!(m.get_process_info("p1").unwrap().pid, Some(4343));
}

#[test]
fn poll_outcomes_drive_status() {
    let mut m = manager_with(&["a", "b", "c"]);
    assert!(m.observe_poll("a", PollOutcome::StillRunning));
    assert_eq!(m.get_process_info("a").unwrap().status, ProcessStatus::Running);
    assert!(!m.observe_poll("a", PollOutcome::Exited { success: true }));
    assert_eq!(m.get_process_info("a").unwrap().status, ProcessStatus::Stopped);
    assert!(!m.observe_poll("b", PollOutcome::Exited { success: false }));
    assert_eq!(m.get_process_info("b").unwrap().status, ProcessStatus::Failed);
    assert!(!m.observe_poll("c", PollOutcome::PollFailed));
    assert_eq!(m.get_process_info("c").unwrap().status, ProcessStatus::Failed);
    assert!(!m.observe_poll("missing", PollOutcome::StillRunning));
    assert!(!m.observe_poll("a", PollOutcome::StillRunning));
    assert_eq!(m.get_process_info("a").unwrap().status, ProcessStatus::Stopped);
}

#[test]
fn stop_is_authoritative_over_the_monitor() {
    let mut m = manager_with(&["a"]);
    assert_eq!(m.stop_process("a"), Ok(()));
    assert!(!m.observe_poll("a", PollOutcome::Exited { success: true }));
    assert_eq!(m.get_process_info("a").unwrap().status, ProcessStatus::Killed);
}

#[test]
fn stop_excludes_from_running_and_reports_errors() {
    let mut m = manager_with(&["a", "b"]);
    assert_eq!(m.stop_process("a"), Ok(()));
    let running: Vec<String> = m.list_running_processes().into_iter().map(|p| p.id).collect();
    assert_eq!(running, vec!["b".to_string()]);
    assert_eq!(m.stop_process("a"), Err(ProcessError::NotRunning));
    assert_eq!(m.stop_process("zzz"), Err(ProcessError::NotFound));
    assert_eq!(ProcessError::NotFound.message(), "Process not found");
    assert_eq!(ProcessError::NotRunning.message(), "Process is not running");
}

#[test]
fn stop_all_stops_exactly_the_live_ones() {
    let mut m = manager_with(&["a", "b", "c", "d"]);
    m.observe_poll("b", PollOutcome::StillRunning);
    m.observe_poll("d", PollOutcome::Exited { success: true });
    let stopped = m.stop_all_processes().unwrap();
    assert_eq!(stopped, vec!["a".to_string(), "b".to_string(), "c".to_string()]);
    for id in ["a", "b", "c"] {
        assert_eq!(m.get_process_info(id).unwrap().status, ProcessStatus::Killed);
    }
    assert_eq!(m.get_process_info("d").unwrap().status, ProcessStatus::Stopped);
    assert!(m.list_running_processes().is_empty());
}

#[test]
fn cleanup_keeps_only_unfinished() {
    let mut m = manager_with(&["a", "b", "c"]);
    m.stop_process("b").unwrap();
    m.cleanup_finished_processes();
    let ids: Vec<String> = m.list_processes().into_iter().map(|p| p.id).collect();
    assert_eq!(ids, vec!["a".to_string(), "c".to_string()]);
}

#[test]
fn output_is_captured_per_stream() {
    let mut m = manager_with(&["a"]);
    assert!(m.append_output("a", LogSource::Stdout, "hello\n", at(2)));
    assert!(m.append_output("a", LogSource::Stderr, "Error: bad  \r\n", at(3)));
    assert!(!m.append_output("nope", LogSource::Stdout, "x", at(3)));
    let info = m.get_process_info("a").unwrap();
    assert_eq!(info.output_lines, vec!["hello".to_string()]);
    assert_eq!(info.error_lines, vec!["Error: bad".to_string()]);
    let logs = m.get_process_logs("a");
    assert_eq!(logs.len(), 2);
    assert_eq!(logs[0].content, "hello");
    assert_eq!(logs[0].level, LogLevel::Info);
    assert_eq!(logs[0].timestamp, at(2));
    assert_eq!(logs[1].level, LogLevel::Error);
    assert_eq!(logs[1].source, LogSource::Stderr);
    assert!(m.get_process_logs("nope").is_empty());
}

#[test]
fn retention_keeps_the_latest_thousand() {
    let mut m = manager_with(&["a"]);
    for k in 0..1005 {
        m.append_output("a", LogSource::Stdout, &format!("line {}", k), at(k));
    }
    let logs = m.get_process_logs("a");
    assert_eq!(logs.len(), 1000);
    assert_eq!(logs[0].content, "line 5");
    assert_eq!(logs[999].content, "line 1004");
    let info = m.get_process_info("a").unwrap();
    assert_eq!(info.output_lines.len(), 1000);
    assert_eq!(info.output_lines[0], "line 5");
    assert!(info.error_lines.is_empty());
}

#[test]
fn recent_logs_are_the_tail() {
    let mut m = manager_with(&["a"]);
    for k in 0..5 {
        m.append_output("a", LogSource::Stdout, &format!("l{}", k), at(k));
    }
    let recent: Vec<String> = m.get_recent_logs("a", 2).into_iter().map(|l| l.content).collect();
    assert_eq!(recent, vec!["l3".to_string(), "l4".to_string()]);
    assert_eq!(m.get_recent_logs("a", 50).len(), 5);
    assert_eq!(m.get_recent_logs("a", 0).len(), 0);
    assert!(m.get_recent_logs("b", 3).is_empty());
}

#[test]
fn queries_repeat_equal() {
    let mut m = manager_with(&["a", "b"]);
    m.append_output("a", LogSource::Stdout, "one", at(1));
    let l1: Vec<String> = m.get_process_logs("a").into_iter().map(|l| l.content).collect();
    let l2: Vec<String> = m.get_process_logs("a").into_iter().map(|l| l.content).collect();
    assert_eq!(l1, l2);
    let p1: Vec<String> = m.list_processes().into_iter().map(|p| p.id).collect();
    let p2: Vec<String> = m.list_processes().into_iter().map(|p| p.id).collect();
    assert_eq!(p1, p2);
    assert_eq!(
        m.get_process_info("a").unwrap().output_lines,
        m.get_process_info("a").unwrap().output_lines
    );
}

#[test]
fn failed_launch_leaves_no_record() {
    let m = ProcessManager::new();
    let e = ProcessError::SpawnError("No such file or directory".to_string());
    assert_eq!(e.message(), "Failed to start process: No such file or directory");
    assert!(m.list_processes().is_empty());
}

#[test]
fn bench_server_is_found() {
    let mut m = ProcessManager::new();
    m.record_spawned(&simple_request("x".to_string(), "/b", "ls", vec![]), 1, at(1));
    assert!(!m.is_bench_running());
    assert_eq!(m.get_bench_process_id(), None);
    m.record_spawned(&dev_server_request("bench_start_9".to_string(), "/b"), 2, at(2));
    assert!(m.is_bench_running());
    assert_eq!(m.get_bench_process_id(), Some("bench_start_9".to_string()));
    m.stop_process("bench_start_9").unwrap();
    assert!(!m.is_bench_running());
}

#[test]
fn logs_are_formatted_for_display() {
    let mut m = manager_with(&["a"]);
    m.append_output("a", LogSource::Stdout, "ready", at(1));
    m.append_output("a", LogSource::Stderr, "Traceback error", at(2));
    assert_eq!(
        m.format_logs_for_display("a"),
        "\u{2139}\u{fe0f} ready\n\u{1f525} [ERR] Traceback error\n"
    );
    assert_eq!(m.format_logs_for_display("zz"), "");
}

#[test]
fn clickable_errors_come_from_error_lines() {
    let mut m = manager_with(&["a"]);
    m.append_output("a", LogSource::Stderr, r#"Error in File "/app/x.py", line 3"#, at(1));
    m.append_output("a", LogSource::Stdout, r#"info File "/app/y.py", line 4"#, at(2));
    m.append_output("a", LogSource::Stderr, "TypeError at run (/srv/app.js:10:2)", at(3));
    m.append_output("a", LogSource::Stderr, "error without location", at(4));
    let errors = m.extract_clickable_errors("a");
    assert_eq!(errors.len(), 2);
    assert_eq!(errors[0].file_path, "/app/x.py");
    assert_eq!(errors[0].line_number, 3);
    assert_eq!(errors[1].file_path, "/srv/app.js");
    assert_eq!(errors[1].line_number, 10);
    assert!(m.extract_clickable_errors("none").is_empty());
}

#[test]
fn bench_requests_build_argument_lists() {
    assert_eq!(bench_process_id("start", 1700000000), "bench_start_1700000000");
    assert_eq!(bench_process_id("build", -5), "bench_build_-5");
    let r = dev_server_request("id1".to_string(), "/bench");
    assert_eq!(r.program, "bench");
    assert_eq!(r.command, "bench start");
    assert_eq!(r.args, vec!["start".to_string()]);
    assert_eq!(r.working_dir, "/bench");
    let r = migrate_request("id2".to_string(), "/bench", Some("site1"));
    assert_eq!(
        r.args,
        vec!["migrate", "--site", "site1", "migrate"]
            .into_iter()
            .map(String::from)
            .collect::<Vec<_>>()
    );
    let r = migrate_request("id3".to_string(), "/bench", None);
    assert_eq!(r.args, vec!["migrate".to_string(), "migrate".to_string()]);
}
