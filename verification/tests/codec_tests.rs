use d1doctor::remote::{
    Envelope, JsonEnvelope, MessageType, PlanProposal, PlanStep, UserRequest, heartbeat_envelope,
    auth_response_envelope, encode_envelope, decode_envelope,
};
use d1doctor::protocol::{LocalEnvelope, LocalPayload, encode_local_envelope, decode_local_envelope};

#[test]
fn test_heartbeat_envelope() {
    let env = heartbeat_envelope("test-session");
    assert_eq!(env.msg_type, MessageType::Heartbeat.tag());
    assert!(!env.id.is_empty());
    assert_eq!(env.session_id, "test-session");
}

#[test]
fn test_encode_decode_roundtrip() {
    let original = heartbeat_envelope("roundtrip-session");
    let bytes = encode_envelope(&original);
    assert!(!bytes.is_empty(), "encoded bytes should not be empty");
    let decoded = decode_envelope(&bytes).expect("decode should succeed");
    assert_eq!(decoded.id, original.id);
    assert_eq!(decoded.session_id, original.session_id);
    assert_eq!(decoded.msg_type, original.msg_type);
    assert_eq!(decoded.timestamp_ms, original.timestamp_ms);
}

#[test]
fn test_decode_invalid_bytes_returns_error() {
    let garbage: Vec<u8> = b"not valid at all !!!".to_vec();
    let result = decode_envelope(&garbage);
    assert!(result.is_err(), "invalid bytes should return Err");
}

#[test]
fn test_auth_response_envelope_can_be_serialized() {
    let env = auth_response_envelope("session-1", "jwt-token-xyz", "device-001");
    assert_eq!(env.msg_type, MessageType::AuthResponse.tag());
    assert!(!env.id.is_empty());
    assert_eq!(env.session_id, "session-1");
    assert_eq!(env.meta_get("jwt_token").map(|s| s.as_str()), Some("jwt-token-xyz"));
    assert_eq!(env.meta_get("device_id").map(|s| s.as_str()), Some("device-001"));

    // Verify it round-trips through the wire encoding
    let bytes = encode_envelope(&env);
    assert!(!bytes.is_empty());
    let decoded = decode_envelope(&bytes).expect("decode should succeed");
    assert_eq!(decoded.msg_type, MessageType::AuthResponse.tag());
    assert_eq!(decoded.meta_get("jwt_token").map(|s| s.as_str()), Some("jwt-token-xyz"));
}

#[test]
fn test_prost_envelope_roundtrip() {
    let env = Envelope {
        id: "test-id".to_string(),
        session_id: "sess-1".to_string(),
        timestamp_ms: 0,
        msg_type: MessageType::UserRequest.tag(),
        payload: b"hello".to_vec(),
    };
    let bytes = env.encode_to_vec();
    let decoded = Envelope::decode(&bytes).unwrap();
    assert_eq!(decoded.id, "test-id");
    assert_eq!(decoded.session_id, "sess-1");
    assert_eq!(decoded.msg_type, MessageType::UserRequest.tag());
    assert_eq!(decoded.payload, b"hello");
}

#[test]
fn test_plan_proposal_roundtrip() {
    let proposal = PlanProposal {
        task_id: "task-1".to_string(),
        summary: "Install node".to_string(),
        estimated_credits: 150,
        steps: vec![PlanStep {
            step_number: 1,
            description: "brew install node".to_string(),
            agent_name: "executor".to_string(),
        }],
    };
    let bytes = proposal.encode_to_vec();
    let decoded = PlanProposal::decode(&bytes).unwrap();
    assert_eq!(decoded.task_id, "task-1");
    assert_eq!(decoded.steps.len(), 1);
    assert_eq!(decoded.steps[0].description, "brew install node");
}

#[test]
fn test_user_request_roundtrip() {
    let req = UserRequest { text: "install postgresql@16".to_string() };
    let bytes = req.encode_to_vec();
    let back = UserRequest::decode(&bytes).expect("decode should succeed");
    assert_eq!(back.text, "install postgresql@16");
}

#[test]
fn test_local_envelope_roundtrip_all_fields() {
    let env = LocalEnvelope {
        v: 1,
        id: "11111111-2222-3333-4444-555555555555".to_string(),
        ts: 1700000000123,
        payload: LocalPayload::PlanApprove {
            task_id: "tsk_9".to_string(),
            plan_id: "pln_4".to_string(),
            action: "REJECT".to_string(),
            modifications: Some("{\"step\":2}".to_string()),
        },
    };
    let bytes = encode_local_envelope(&env);
    let back = decode_local_envelope(&bytes).expect("decode should succeed");
    assert_eq!(back.v, env.v);
    assert_eq!(back.id, env.id);
    assert_eq!(back.ts, env.ts);
    match back.payload {
        LocalPayload::PlanApprove { task_id, plan_id, action, modifications } => {
            assert_eq!(task_id, "tsk_9");
            assert_eq!(plan_id, "pln_4");
            assert_eq!(action, "REJECT");
            assert_eq!(modifications.as_deref(), Some("{\"step\":2}"));
        }
        _ => panic!("wrong payload"),
    }
}

#[test]
fn test_json_envelope_metadata_roundtrip() {
    let env = auth_response_envelope("s", "token-abc", "dev-9");
    let bytes = env.encode_to_vec();
    let back = JsonEnvelope::decode(&bytes).expect("decode should succeed");
    assert_eq!(back.metadata.len(), 2);
    assert_eq!(back.meta_get("device_id").map(|s| s.as_str()), Some("dev-9"));
}

#[test]
fn test_remote_decode_rejects_truncated_frame() {
    let env = heartbeat_envelope("s");
    let mut bytes = env.encode_to_vec();
    bytes.pop();
    assert!(decode_envelope(&bytes).is_err());
}

#[test]
fn test_unicode_text_roundtrip() {
    let req = UserRequest { text: "grüße 你好 🚀".to_string() };
    let bytes = req.encode_to_vec();
    let back = UserRequest::decode(&bytes).expect("decode should succeed");
    assert_eq!(back.text, "grüße 你好 🚀");
}
