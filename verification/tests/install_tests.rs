use d1doctor::install::{
    install_request, expect_plan_proposal, approval_for, approval_action, permission_grant,
};
use d1doctor::remote::{Envelope, MessageType, PlanProposal, PlanStep, ApprovalAction};

fn proposal_envelope(task_id: &str, steps: usize) -> Envelope {
    let proposal = PlanProposal {
        task_id: task_id.to_string(),
        summary: format!("Install package using Homebrew ({} step(s))", steps),
        estimated_credits: (steps as u64) * 50,
        steps: (1..=(steps as i32))
            .map(|i| PlanStep {
                step_number: i,
                description: format!("Step {}", i),
                agent_name: "install_agent".to_string(),
            })
            .collect(),
    };
    Envelope {
        id: "server-env-1".to_string(),
        session_id: "sess-1".to_string(),
        timestamp_ms: 0,
        msg_type: MessageType::PlanProposal.tag(),
        payload: proposal.encode_to_vec(),
    }
}

#[test]
fn test_install_user_request_text_contains_package() {
    let req = install_request("postgresql@16");
    assert!(
        req.text.contains("postgresql@16"),
        "UserRequest text should contain the package name, got: {}",
        req.text
    );
    assert_eq!(req.text, "install postgresql@16");
}

#[test]
fn test_install_approval_echoes_task_id() {
    let env = proposal_envelope("task-uuid-xyz-987", 1);
    let proposal = expect_plan_proposal(&env).expect("a plan proposal");
    let approval = approval_for(&proposal, true);
    assert_eq!(approval.task_id, "task-uuid-xyz-987");
    assert_eq!(approval.action, ApprovalAction::Approve.tag());
}

#[test]
fn test_install_wrong_message_type_returns_error() {
    let mut env = proposal_envelope("task-004", 1);
    env.msg_type = MessageType::Unknown.tag();
    assert!(expect_plan_proposal(&env).is_none(), "a wrong tag must be refused");
}

#[test]
fn test_install_plan_with_four_steps() {
    let env = proposal_envelope("task-004", 4);
    let proposal = expect_plan_proposal(&env).expect("a plan proposal");
    assert_eq!(proposal.steps.len(), 4);
    let approval = approval_for(&proposal, true);
    assert_eq!(approval.task_id, "task-004");
    assert_eq!(approval.action, ApprovalAction::Approve.tag());
}

#[test]
fn test_install_rejection() {
    let env = proposal_envelope("task-005", 2);
    let proposal = expect_plan_proposal(&env).expect("a plan proposal");
    let approval = approval_for(&proposal, false);
    assert_eq!(approval.action, ApprovalAction::Reject.tag());
}

#[test]
fn test_approval_action_decisions() {
    assert_eq!(approval_action(false, true, None), "REJECT");
    assert_eq!(approval_action(true, false, None), "APPROVE");
    assert_eq!(approval_action(false, false, None), "APPROVE");
    let no = "no".to_string();
    assert_eq!(approval_action(false, false, Some(&no)), "REJECT");
    let r = "r".to_string();
    assert_eq!(approval_action(false, false, Some(&r)), "REJECT");
    let empty = "".to_string();
    assert_eq!(approval_action(false, false, Some(&empty)), "APPROVE");
    let yes = "y".to_string();
    assert_eq!(approval_action(false, false, Some(&yes)), "APPROVE");
}

#[test]
fn test_permission_grant_decisions() {
    assert!(permission_grant(true, None));
    assert!(permission_grant(false, None));
    let n = "n".to_string();
    assert!(!permission_grant(false, Some(&n)));
    let y = "y".to_string();
    assert!(permission_grant(false, Some(&y)));
}
