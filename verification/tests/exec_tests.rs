use d1doctor::exec::{
    Executor, ExecResult, CommandOutcome, exec_result_from_outcome, command_timeout_secs,
    file_op_plan, FileOpPlan, read_result, write_result, move_result, delete_result, trim_ascii,
};

/// Runs a shell command with a timeout, the way the daemon's process edge
/// does: race the subprocess against a timer, then shape the outcome.
fn run(command: &str, timeout_secs: u64) -> ExecResult {
    let _executor = Executor::new();
    let rt = tokio::runtime::Runtime::new().unwrap();
    let start = std::time::Instant::now();
    let outcome = rt.block_on(async {
        let fut = tokio::process::Command::new("sh").arg("-c").arg(command).output();
        match tokio::time::timeout(std::time::Duration::from_secs(timeout_secs), fut).await {
            Ok(Ok(out)) => CommandOutcome::Exited {
                exit_code: out.status.code().unwrap_or(-1),
                stdout: String::from_utf8_lossy(&out.stdout).to_string(),
                stderr: String::from_utf8_lossy(&out.stderr).to_string(),
            },
            Ok(Err(_)) => CommandOutcome::TimedOut,
            Err(_) => CommandOutcome::TimedOut,
        }
    });
    let duration_ms = start.elapsed().as_millis() as u64;
    exec_result_from_outcome(outcome, timeout_secs, duration_ms)
}

#[test]
fn test_execute_echo_command() {
    let result = run("echo hello", 5);
    assert!(result.success);
    assert_eq!(result.stdout.trim(), "hello");
    assert_eq!(result.exit_code, 0);
}

#[test]
fn test_execute_failing_command() {
    let result = run("false", 5);
    assert!(!result.success);
    assert_ne!(result.exit_code, 0);
}

#[test]
fn test_timeout_is_enforced() {
    let start = std::time::Instant::now();
    let result = run("sleep 10", 1);
    let elapsed = start.elapsed();
    assert!(result.timed_out);
    assert!(!result.success);
    assert_eq!(result.exit_code, -1);
    assert!(elapsed.as_secs() < 5, "must return well before the 10s sleep finishes");
}

#[test]
fn test_timeout_result_shape() {
    let r = exec_result_from_outcome(CommandOutcome::TimedOut, 7, 7001);
    assert!(!r.success);
    assert!(r.timed_out);
    assert_eq!(r.exit_code, -1);
    assert_eq!(r.stdout, "");
    assert_eq!(r.stderr, "Command timed out after 7s");
    assert_eq!(r.duration_ms, 7001);
}

#[test]
fn test_exit_result_shape() {
    let r = exec_result_from_outcome(
        CommandOutcome::Exited {
            exit_code: 2,
            stdout: "out".to_string(),
            stderr: "err".to_string(),
        },
        5,
        12,
    );
    assert!(!r.success);
    assert!(!r.timed_out);
    assert_eq!(r.exit_code, 2);
    assert_eq!(r.stdout, "out");
    assert_eq!(r.stderr, "err");
}

#[test]
fn test_command_timeout_floor() {
    assert_eq!(command_timeout_secs(5000), 5);
    assert_eq!(command_timeout_secs(12_000), 12);
    assert_eq!(command_timeout_secs(1), 5);
    assert_eq!(command_timeout_secs(-3), 5);
}

#[test]
fn test_file_op_plan_variants() {
    let path = "/tmp/a.txt".to_string();
    let dest = "/tmp/b.txt".to_string();
    let content = "hello world".to_string();
    assert!(matches!(
        file_op_plan("FILE_READ", &path, None, None),
        Ok(FileOpPlan::Read { .. })
    ));
    match file_op_plan("FILE_WRITE", &path, None, Some(&content)) {
        Ok(FileOpPlan::Write { content: c, .. }) => assert_eq!(c, "hello world"),
        _ => panic!("expected a write plan"),
    }
    assert!(matches!(
        file_op_plan("FILE_MOVE", &path, Some(&dest), None),
        Ok(FileOpPlan::Move { .. })
    ));
    assert!(matches!(
        file_op_plan("FILE_DELETE", &path, None, None),
        Ok(FileOpPlan::Delete { .. })
    ));
}

#[test]
fn test_file_op_move_requires_destination() {
    let path = "/tmp/a.txt".to_string();
    let err = file_op_plan("FILE_MOVE", &path, None, None).unwrap_err();
    assert_eq!(err, "FILE_MOVE requires a destination path");
}

#[test]
fn test_file_op_unknown_action() {
    let path = "/tmp/a.txt".to_string();
    let err = file_op_plan("FILE_SHRED", &path, None, None).unwrap_err();
    assert_eq!(err, "Unknown file action: FILE_SHRED");
}

#[test]
fn test_file_op_results() {
    let path = "/tmp/x".to_string();
    let dest = "/tmp/y".to_string();
    let r = read_result("data".to_string(), 3);
    assert!(r.success);
    assert_eq!(r.stdout, "data");
    let r = write_result(&path, 11, 4);
    assert_eq!(r.stdout, "Written 11 bytes to /tmp/x");
    let r = move_result(&path, &dest, 5);
    assert_eq!(r.stdout, "Moved /tmp/x -> /tmp/y");
    let r = delete_result(&path, 6);
    assert_eq!(r.stdout, "Deleted /tmp/x");
}

#[test]
fn test_trim_ascii() {
    assert_eq!(trim_ascii("  hello \n"), "hello");
    assert_eq!(trim_ascii("\t\r\n"), "");
    assert_eq!(trim_ascii("no-space"), "no-space");
    assert_eq!(trim_ascii(" a b "), "a b");
}
