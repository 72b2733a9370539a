//! End-to-end flow through the library's logic, without sockets: a client
//! submits a task, the daemon persists and forwards it, a simulated
//! orchestrator proposes a plan, the router delivers it to the submitting
//! connection, and the client's approval is forwarded upstream unchanged.

use d1doctor::server::{ServerState, handle_client_message};
use d1doctor::store::TaskStore;
use d1doctor::protocol::{LocalEnvelope, LocalPayload};
use d1doctor::router::{RoutedMessage, RouteDecision, route_orchestrator_message};
use d1doctor::remote::{Envelope, MessageType, PlanProposal, PlanStep};

#[test]
fn test_end_to_end_submit_plan_approve() {
    let mut state = ServerState::new(
        TaskStore::new(),
        "0.4.1".to_string(),
        "ws://localhost:8000/ws/connect".to_string(),
        "device-1".to_string(),
    );
    let conn: u64 = 11;

    // 1. client sends task.submit{task_id: "tsk_1", input: "install node"}
    let submit = LocalEnvelope {
        v: 1,
        id: "msg-1".to_string(),
        ts: 100,
        payload: LocalPayload::TaskSubmit {
            task_id: "tsk_1".to_string(),
            input: "install node".to_string(),
            context: "{}".to_string(),
        },
    };
    let outcome = handle_client_message(&mut state, conn, &submit, 100);

    // the daemon persisted a task row with status submitted
    let task = state.store.get_task("tsk_1").expect("persisted row");
    assert_eq!(task.status, "submitted");
    assert_eq!(task.input, "install node");

    // and forwarded the request upstream
    let forwarded = outcome.forward.expect("forwarded upstream");
    assert!(matches!(forwarded, LocalPayload::TaskSubmit { .. }));

    // 2. a simulated orchestrator replies with a PlanProposal envelope
    let proposal = PlanProposal {
        task_id: "tsk_1".to_string(),
        summary: "Install node".to_string(),
        estimated_credits: 150,
        steps: vec![PlanStep {
            step_number: 1,
            description: "brew install node".to_string(),
            agent_name: "executor".to_string(),
        }],
    };
    let upstream = Envelope {
        id: "env-1".to_string(),
        session_id: "sess-1".to_string(),
        timestamp_ms: 200,
        msg_type: MessageType::PlanProposal.tag(),
        payload: proposal.encode_to_vec(),
    };
    let wire = upstream.encode_to_vec();
    let received = Envelope::decode(&wire).expect("orchestrator envelope decodes");
    assert_eq!(received.msg_type, MessageType::PlanProposal.tag());
    let received_plan = PlanProposal::decode(&received.payload).expect("plan decodes");

    // 3. the router delivers plan.proposed only to the submitting connection
    let routed = RoutedMessage {
        msg_type: Some("plan.proposed".to_string()),
        task_id: Some(received_plan.task_id.clone()),
        payload_task_id: None,
        body: received_plan.summary.clone(),
    };
    let (event, decision) = route_orchestrator_message(&routed, &state.task_subs);
    assert!(matches!(decision, RouteDecision::Deliver { conn: 11 }));
    assert_eq!(event.msg_type(), "plan.proposed");

    // 4. the connection replies with an approval, forwarded upstream unchanged
    let approve = LocalEnvelope {
        v: 1,
        id: "msg-2".to_string(),
        ts: 300,
        payload: LocalPayload::PlanApprove {
            task_id: "tsk_1".to_string(),
            plan_id: "pln_1".to_string(),
            action: "APPROVE".to_string(),
            modifications: None,
        },
    };
    let outcome = handle_client_message(&mut state, conn, &approve, 300);
    assert!(outcome.reply.is_none());
    match outcome.forward.expect("approval forwarded") {
        LocalPayload::PlanApprove { task_id, plan_id, action, modifications } => {
            assert_eq!(task_id, "tsk_1");
            assert_eq!(plan_id, "pln_1");
            assert_eq!(action, "APPROVE");
            assert!(modifications.is_none());
        }
        _ => panic!("approval must be forwarded verbatim"),
    }
}
