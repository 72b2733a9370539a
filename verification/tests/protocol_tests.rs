use d1doctor::PROTOCOL_VERSION;
use d1doctor::protocol::{
    LocalEnvelope, LocalPayload, ErrorCode, encode_local_envelope, decode_local_envelope,
};

fn make_envelope(payload: LocalPayload) -> LocalEnvelope {
    LocalEnvelope { v: 1, id: "0a9f7c1e-3b44-4b21-9d6e-2f8a1c5b7d90".to_string(), ts: 1000, payload }
}

#[test]
fn test_protocol_version_is_1() {
    assert_eq!(PROTOCOL_VERSION, 1);
}

#[test]
fn test_protocol_version_constant() {
    // The protocol version must be 1.
    assert_eq!(PROTOCOL_VERSION, 1);
}

#[test]
fn test_heartbeat_pong() {
    let pong = LocalEnvelope::heartbeat_pong();
    assert_eq!(pong.msg_type(), "heartbeat");
    assert!(matches!(pong.payload, LocalPayload::Pong));
}

#[test]
fn test_error_envelope() {
    let err = LocalEnvelope::error(
        ErrorCode::ProtocolError,
        "bad message".to_string(),
        Some("req-123".to_string()),
    );
    assert_eq!(err.msg_type(), "error");
    match &err.payload {
        LocalPayload::Error { code, message, request_id } => {
            assert_eq!(code.code_str(), "PROTOCOL_ERROR");
            assert_eq!(message, "bad message");
            assert_eq!(request_id.as_deref(), Some("req-123"));
        }
        _ => panic!("expected an error payload"),
    }
}

#[test]
fn test_deserialise_task_submit() {
    let original = make_envelope(LocalPayload::TaskSubmit {
        task_id: "tsk_1".to_string(),
        input: "test".to_string(),
        context: "{}".to_string(),
    });
    let bytes = encode_local_envelope(&original);
    let msg = decode_local_envelope(&bytes).expect("decode should succeed");
    assert_eq!(msg.v, 1);
    assert_eq!(msg.msg_type(), "task.submit");
}

#[test]
fn test_serialise_plan_proposed() {
    let env = LocalEnvelope::new(LocalPayload::Event {
        event_type: "plan.proposed".to_string(),
        body: "{\"task_id\":\"tsk_1\",\"plan_id\":\"pln_1\",\"summary\":\"Install OpenClaw\"}"
            .to_string(),
    });
    assert_eq!(env.v, 1);
    assert_eq!(env.msg_type(), "plan.proposed");
    let bytes = encode_local_envelope(&env);
    assert!(!bytes.is_empty());
}

#[test]
fn test_version_mismatch_rejected() {
    let msg = make_envelope(LocalPayload::TaskSubmit {
        task_id: "tsk_1".to_string(),
        input: "test".to_string(),
        context: "{}".to_string(),
    });
    let msg = LocalEnvelope { v: 99, ..msg };
    // Validate: v must equal PROTOCOL_VERSION
    assert_ne!(msg.v, PROTOCOL_VERSION);
}

#[test]
fn test_envelope_v1_structure() {
    let env = d1doctor::protocol::LocalEnvelope::new(LocalPayload::TaskSubmit {
        task_id: "tsk_abc123".to_string(),
        input: "hello".to_string(),
        context: "{}".to_string(),
    });
    assert_eq!(env.v, 1);
    assert!(env.id.len() == 36);
    assert_eq!(env.msg_type(), "task.submit");
    match &env.payload {
        LocalPayload::TaskSubmit { task_id, .. } => assert_eq!(task_id, "tsk_abc123"),
        _ => panic!("wrong payload"),
    }
}

#[test]
fn test_envelope_required_fields() {
    let env = LocalEnvelope::new(LocalPayload::Heartbeat);
    assert!(env.v == 1, "must have v");
    assert!(!env.id.is_empty(), "must have id");
    assert!(env.ts >= 0, "must have ts");
    assert!(!env.msg_type().is_empty(), "must have type");
}

#[test]
fn test_task_submit_payload_structure() {
    let env = make_envelope(LocalPayload::TaskSubmit {
        task_id: "tsk_001".to_string(),
        input: "check why postgres is down".to_string(),
        context: "{\"cwd\":null,\"env\":{}}".to_string(),
    });
    match &env.payload {
        LocalPayload::TaskSubmit { task_id, input, context } => {
            assert!(!task_id.is_empty());
            assert!(!input.is_empty());
            assert!(!context.is_empty());
        }
        _ => panic!("wrong payload"),
    }
}

#[test]
fn test_plan_approve_payload_structure() {
    let env = make_envelope(LocalPayload::PlanApprove {
        task_id: "tsk_001".to_string(),
        plan_id: "plan_abc".to_string(),
        action: "APPROVE".to_string(),
        modifications: None,
    });
    match &env.payload {
        LocalPayload::PlanApprove { task_id, plan_id, action, .. } => {
            assert_eq!(action, "APPROVE");
            assert!(!task_id.is_empty());
            assert!(!plan_id.is_empty());
        }
        _ => panic!("wrong payload"),
    }
}

#[test]
fn test_outbound_message_types() {
    // Verify the outbound event types round-trip with v == 1.
    let types = [
        "plan.proposed",
        "step.started",
        "step.completed",
        "step.failed",
        "agent.message",
        "task.completed",
        "task.failed",
        "permission.requested",
        "credits.updated",
    ];
    for msg_type in &types {
        let env = make_envelope(LocalPayload::Event {
            event_type: msg_type.to_string(),
            body: "{}".to_string(),
        });
        assert_eq!(env.msg_type(), *msg_type, "type should round-trip for {msg_type}");
        assert_eq!(env.v, 1, "v must be 1 for {msg_type}");
        let bytes = encode_local_envelope(&env);
        let back = decode_local_envelope(&bytes).expect("decode should succeed");
        assert_eq!(back.msg_type(), *msg_type);
    }
}

#[test]
fn test_envelope_has_uuid_id() {
    let env = LocalEnvelope::new(LocalPayload::Heartbeat);
    assert_eq!(env.id.len(), 36); // UUID4 format
    assert!(env.id.contains('-'));
}

#[test]
fn test_envelope_has_timestamp() {
    let env = LocalEnvelope::new(LocalPayload::Heartbeat);
    assert!(env.ts > 0);
}
