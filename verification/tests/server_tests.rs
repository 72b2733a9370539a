use d1doctor::server::{ServerState, handle_client_message};
use d1doctor::store::TaskStore;
use d1doctor::protocol::{LocalEnvelope, LocalPayload, ErrorCode};

fn make_state() -> ServerState {
    ServerState::new(
        TaskStore::new(),
        "0.4.1".to_string(),
        "ws://localhost:8000/ws/connect".to_string(),
        "device-1".to_string(),
    )
}

fn env(v: u32, id: &str, payload: LocalPayload) -> LocalEnvelope {
    LocalEnvelope { v, id: id.to_string(), ts: 0, payload }
}

#[test]
fn test_unknown_protocol_version_returns_error() {
    let mut state = make_state();
    let submit = env(
        99,
        "test-1",
        LocalPayload::TaskSubmit {
            task_id: "tsk_1".to_string(),
            input: "x".to_string(),
            context: "{}".to_string(),
        },
    );
    let outcome = handle_client_message(&mut state, 1, &submit, 1000);
    assert!(!outcome.close, "connection must stay open");
    assert!(outcome.forward.is_none());
    let reply = outcome.reply.expect("an error reply");
    match reply.payload {
        LocalPayload::Error { code, message, request_id } => {
            assert_eq!(code, ErrorCode::ProtocolVersionMismatch);
            assert_eq!(code.code_str(), "PROTOCOL_VERSION_MISMATCH");
            assert_eq!(message, "Expected protocol version 1, got 99");
            assert_eq!(request_id.as_deref(), Some("test-1"));
        }
        _ => panic!("expected an error payload"),
    }
    // nothing was persisted or registered
    assert!(state.store.get_task("tsk_1").is_none());
    assert_eq!(state.task_subs.len(), 0);

    // the connection remains usable: a correct heartbeat still gets a pong
    let ping = env(1, "test-2", LocalPayload::Heartbeat);
    let outcome = handle_client_message(&mut state, 1, &ping, 1001);
    assert!(!outcome.close);
    assert!(matches!(outcome.reply.unwrap().payload, LocalPayload::Pong));
}

#[test]
fn test_heartbeat_roundtrip() {
    let mut state = make_state();
    let ping = env(1, "test-1", LocalPayload::Heartbeat);
    let outcome = handle_client_message(&mut state, 1, &ping, 1000);
    let reply = outcome.reply.expect("a pong");
    assert_eq!(reply.msg_type(), "heartbeat");
    assert!(matches!(reply.payload, LocalPayload::Pong));
}

#[test]
fn test_unknown_message_type_returns_error() {
    let mut state = make_state();
    let odd = env(
        1,
        "test-1",
        LocalPayload::TasksList { task_id: None, limit: 20 },
    );
    let outcome = handle_client_message(&mut state, 1, &odd, 1000);
    assert!(!outcome.close);
    let reply = outcome.reply.expect("an error reply");
    match reply.payload {
        LocalPayload::Error { code, message, .. } => {
            assert_eq!(code, ErrorCode::ProtocolError);
            assert_eq!(message, "Unknown message type: tasks.list");
        }
        _ => panic!("expected an error payload"),
    }
}

#[test]
fn test_task_submit_registers_persists_forwards() {
    let mut state = make_state();
    let submit = env(
        1,
        "test-1",
        LocalPayload::TaskSubmit {
            task_id: "tsk_7".to_string(),
            input: "install node".to_string(),
            context: "{}".to_string(),
        },
    );
    let outcome = handle_client_message(&mut state, 42, &submit, 5000);
    assert!(outcome.reply.is_none());
    match outcome.forward.expect("forwarded upstream") {
        LocalPayload::TaskSubmit { task_id, input, .. } => {
            assert_eq!(task_id, "tsk_7");
            assert_eq!(input, "install node");
        }
        _ => panic!("wrong forward"),
    }
    let task = state.store.get_task("tsk_7").expect("persisted");
    assert_eq!(task.status, "submitted");
    assert_eq!(task.created_at, 5000);
    assert_eq!(state.task_subs.lookup("tsk_7"), Some(42));
}

#[test]
fn test_forward_verbatim_types() {
    let mut state = make_state();
    let approve = env(
        1,
        "a",
        LocalPayload::PlanApprove {
            task_id: "t".to_string(),
            plan_id: "p".to_string(),
            action: "APPROVE".to_string(),
            modifications: None,
        },
    );
    let outcome = handle_client_message(&mut state, 1, &approve, 0);
    assert!(matches!(outcome.forward, Some(LocalPayload::PlanApprove { .. })));

    let perm = env(
        1,
        "b",
        LocalPayload::PermissionResponse {
            task_id: "t".to_string(),
            permission_id: "perm".to_string(),
            granted: true,
        },
    );
    let outcome = handle_client_message(&mut state, 1, &perm, 0);
    assert!(matches!(outcome.forward, Some(LocalPayload::PermissionResponse { granted: true, .. })));

    let cancel = env(1, "c", LocalPayload::TaskCancel { task_id: "t".to_string() });
    let outcome = handle_client_message(&mut state, 1, &cancel, 0);
    assert!(matches!(outcome.forward, Some(LocalPayload::TaskCancel { .. })));
}

#[test]
fn test_connection_snapshot() {
    let mut state = make_state();
    state.set_orch_connected(true);
    let snap = state.connection_snapshot();
    assert_eq!(snap.msg_type(), "daemon.status");
    match snap.payload {
        LocalPayload::DaemonStatus {
            daemon_version,
            protocol_version,
            orchestrator_connected,
            orchestrator_url,
            active_tasks,
            device_id,
        } => {
            assert_eq!(daemon_version, "0.4.1");
            assert_eq!(protocol_version, 1);
            assert!(orchestrator_connected);
            assert_eq!(orchestrator_url, "ws://localhost:8000/ws/connect");
            assert_eq!(active_tasks, 0);
            assert_eq!(device_id, "device-1");
        }
        _ => panic!("expected a status payload"),
    }
}
