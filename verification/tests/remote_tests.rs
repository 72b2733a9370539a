use d1doctor::remote::{
    Envelope, Command, CommandResult, ProgressUpdate, MessageType, ApprovalAction, JsonEnvelope,
    build_heartbeat, dispatch_message, DispatchOutcome,
};
use d1doctor::exec::{
    CommandOutcome, exec_result_from_outcome, command_from_envelope, command_reply_envelopes,
    command_timeout_secs,
};
use d1doctor::conn::{OrchestratorClient, ConnState, ConnEvent};

fn make_command_envelope(session_id: &str, task_id: &str, command: &str, step: i32) -> Vec<u8> {
    let cmd = Command {
        id: "cmd-001".to_string(),
        task_id: task_id.to_string(),
        step_number: step,
        shell_command: command.to_string(),
        timeout_ms: 5000,
    };
    let env = Envelope {
        id: "env-001".to_string(),
        session_id: session_id.to_string(),
        timestamp_ms: 0,
        msg_type: MessageType::Command.tag(),
        payload: cmd.encode_to_vec(),
    };
    env.encode_to_vec()
}

fn run_command(cmd: &Command) -> d1doctor::exec::ExecResult {
    let timeout_secs = command_timeout_secs(cmd.timeout_ms);
    let rt = tokio::runtime::Runtime::new().unwrap();
    let start = std::time::Instant::now();
    let shell = cmd.shell_command.clone();
    let outcome = rt.block_on(async {
        let fut = tokio::process::Command::new("sh").arg("-c").arg(&shell).output();
        match tokio::time::timeout(std::time::Duration::from_secs(timeout_secs), fut).await {
            Ok(Ok(out)) => CommandOutcome::Exited {
                exit_code: out.status.code().unwrap_or(-1),
                stdout: String::from_utf8_lossy(&out.stdout).to_string(),
                stderr: String::from_utf8_lossy(&out.stderr).to_string(),
            },
            _ => CommandOutcome::TimedOut,
        }
    });
    exec_result_from_outcome(outcome, timeout_secs, start.elapsed().as_millis() as u64)
}

/// Decodes, executes, and builds the two reply envelopes, the way the
/// daemon's event loop handles one remote command.
fn handle_command_message(envelope: &Envelope) -> Vec<Envelope> {
    let cmd = command_from_envelope(envelope).expect("a command envelope");
    let exec = run_command(&cmd);
    let (progress_env, result_env) = command_reply_envelopes(&cmd, &envelope.session_id, &exec);
    vec![progress_env, result_env]
}

#[test]
fn test_handle_command_returns_command_result() {
    let bytes = make_command_envelope("sess-001", "task-001", "echo sprint3", 1);
    let env = Envelope::decode(&bytes).expect("decode");
    let responses = handle_command_message(&env);
    assert!(
        responses.iter().any(|r| r.msg_type == MessageType::CommandResult.tag()),
        "Expected a command result among the replies"
    );
    let result_env = responses
        .iter()
        .find(|r| r.msg_type == MessageType::CommandResult.tag())
        .unwrap();
    let result = CommandResult::decode(&result_env.payload).unwrap();
    assert!(result.success, "echo should succeed");
    assert_eq!(result.command_id, "cmd-001");
    assert!(result.stdout.contains("sprint3"), "stdout should contain 'sprint3'");
}

#[test]
fn test_handle_command_returns_progress_update() {
    let bytes = make_command_envelope("sess-001", "task-001", "echo progress_test", 2);
    let env = Envelope::decode(&bytes).expect("decode");
    let responses = handle_command_message(&env);
    assert!(
        responses.iter().any(|r| r.msg_type == MessageType::ProgressUpdate.tag()),
        "Expected a progress update among the replies"
    );
    let progress_env = responses
        .iter()
        .find(|r| r.msg_type == MessageType::ProgressUpdate.tag())
        .unwrap();
    let progress = ProgressUpdate::decode(&progress_env.payload).unwrap();
    assert_eq!(progress.task_id, "task-001");
    assert_eq!(progress.step_number, 2);
}

#[test]
fn test_handle_failed_command_result_is_not_success() {
    let bytes = make_command_envelope("sess-001", "task-001", "false", 1);
    let env = Envelope::decode(&bytes).expect("decode");
    let responses = handle_command_message(&env);
    let result_env = responses
        .iter()
        .find(|r| r.msg_type == MessageType::CommandResult.tag())
        .unwrap();
    let result = CommandResult::decode(&result_env.payload).unwrap();
    assert!(!result.success, "`false` command should fail");
    assert_ne!(result.exit_code, 0);
}

#[test]
fn test_build_auth_response_type() {
    let env = d1doctor::remote::auth_response_envelope("test-session", "", "unknown");
    assert_eq!(env.msg_type, MessageType::AuthResponse.tag());
    assert!(!env.id.is_empty());
    assert_eq!(env.session_id, "test-session");
}

#[test]
fn test_build_auth_response_encodes() {
    let env = d1doctor::remote::auth_response_envelope("session-xyz", "", "unknown");
    let bytes = d1doctor::remote::encode_envelope(&env);
    assert!(!bytes.is_empty(), "the envelope should encode to non-empty bytes");
    let decoded = d1doctor::remote::decode_envelope(&bytes).expect("the envelope should decode");
    assert_eq!(decoded.msg_type, MessageType::AuthResponse.tag());
}

#[test]
fn test_build_heartbeat_type() {
    let env = build_heartbeat("sess-2");
    assert_eq!(env.msg_type, MessageType::Heartbeat.tag());
    assert_eq!(env.session_id, "sess-2");
    assert!(env.payload.is_empty());
}

#[test]
fn test_dispatch_message_by_tag() {
    let mut hb = build_heartbeat("s");
    assert_eq!(dispatch_message(&hb), DispatchOutcome::HeartbeatAck);
    hb.msg_type = MessageType::CommandRequest.tag();
    assert_eq!(dispatch_message(&hb), DispatchOutcome::CommandRequest);
    hb.msg_type = MessageType::PlanProposal.tag();
    assert_eq!(dispatch_message(&hb), DispatchOutcome::Ignored);
}

#[test]
fn test_message_type_tags() {
    assert_eq!(MessageType::Unknown.tag(), 0);
    assert_eq!(MessageType::Heartbeat.tag(), 1);
    assert_eq!(MessageType::UserRequest.tag(), 2);
    assert_eq!(MessageType::PlanProposal.tag(), 3);
    assert_eq!(MessageType::PlanApproval.tag(), 4);
    assert_eq!(MessageType::Command.tag(), 5);
    assert_eq!(MessageType::CommandResult.tag(), 6);
    assert_eq!(MessageType::ProgressUpdate.tag(), 7);
    assert_eq!(MessageType::AuthResponse.tag(), 14);
    assert_eq!(MessageType::from_tag(5), Some(MessageType::Command));
    assert_eq!(MessageType::from_tag(99), None);
    assert_eq!(ApprovalAction::Approve.tag(), 1);
    assert_eq!(ApprovalAction::Reject.tag(), 2);
}

#[test]
fn test_reconnect_state_machine_cycle() {
    let mut client = OrchestratorClient::new(1, 30);
    assert_eq!(client.state, ConnState::Disconnected);

    let out = client.step(ConnEvent::StartAttempt);
    assert_eq!(client.state, ConnState::Connecting);
    assert!(out.announce.is_none());

    // three failures: delays 1, 2, 4
    let out = client.step(ConnEvent::ConnectFailed);
    assert_eq!(client.state, ConnState::BackingOff);
    assert_eq!(out.announce, Some(false));
    assert_eq!(out.sleep_secs, Some(1));
    client.step(ConnEvent::BackoffElapsed);
    let out = client.step(ConnEvent::ConnectFailed);
    assert_eq!(out.sleep_secs, Some(2));
    client.step(ConnEvent::BackoffElapsed);
    let out = client.step(ConnEvent::ConnectFailed);
    assert_eq!(out.sleep_secs, Some(4));

    // a success resets the backoff and announces the link up
    client.step(ConnEvent::BackoffElapsed);
    let out = client.step(ConnEvent::ConnectSucceeded);
    assert_eq!(client.state, ConnState::Connected);
    assert_eq!(out.announce, Some(true));

    // losing the stream starts over at the base delay
    let out = client.step(ConnEvent::StreamEnded);
    assert_eq!(client.state, ConnState::BackingOff);
    assert_eq!(out.announce, Some(false));
    assert_eq!(out.sleep_secs, Some(1));
}
