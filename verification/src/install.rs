//! The install flow's decisions: building the upstream request, accepting
//! only a plan proposal in reply, choosing an approval, and answering a
//! permission prompt. The prompting and the socket around them live at the
//! process edge.

use vstd::prelude::*;
use vstd::string::*;
use crate::remote::{
    Envelope, MessageType, PlanApproval, PlanProposal, UserRequest, ApprovalAction,
    spec_decode_plan_proposal,
};

verus! {

/// The upstream request text for installing one package.
pub fn install_request(package: &str) -> (r: UserRequest)
    ensures
        r.text@ == "install "@ + package@,
{
    let mut text = String::from_str("install ");
    text.append(package);
    UserRequest { text }
}

/// Accepts a reply envelope only when its tag says plan proposal and its
/// payload decodes as one: tag-directed dispatch, no structural guessing.
pub fn expect_plan_proposal(env: &Envelope) -> (r: Option<PlanProposal>)
    ensures
        match r {
            Some(p) => env.msg_type == MessageType::PlanProposal.spec_tag()
                && spec_decode_plan_proposal(env.payload@) == Some(p@),
            None => env.msg_type != MessageType::PlanProposal.spec_tag()
                || spec_decode_plan_proposal(env.payload@) is None,
        },
{
    if env.msg_type != MessageType::PlanProposal.tag() {
        return None;
    }
    PlanProposal::decode(&env.payload)
}

/// The approval answered for a proposal: approve or reject its task.
pub fn approval_for(proposal: &PlanProposal, approved: bool) -> (r: PlanApproval)
    ensures
        r.task_id@ == proposal.task_id@,
        approved ==> r.action == ApprovalAction::Approve.spec_tag(),
        !approved ==> r.action == ApprovalAction::Reject.spec_tag(),
{
    PlanApproval {
        task_id: proposal.task_id.clone(),
        action: if approved {
            ApprovalAction::Approve.tag()
        } else {
            ApprovalAction::Reject.tag()
        },
    }
}

/// Whether a lowercased prompt answer rejects a plan.
pub open spec fn spec_is_reject_word(s: Seq<char>) -> bool {
    s == "r"@ || s == "reject"@ || s == "n"@ || s == "no"@
}

/// The plan decision of the interactive client: `--no-approve` always
/// rejects; `--approve` (or no terminal to ask on) always approves;
/// otherwise the user's lowercased answer rejects on r / reject / n / no
/// and approves on anything else, the empty answer included.
pub fn approval_action(auto_approve: bool, no_approve: bool, answer: Option<&String>) -> (r:
    String)
    ensures
        no_approve ==> r@ == "REJECT"@,
        !no_approve && (auto_approve || answer is None) ==> r@ == "APPROVE"@,
        !no_approve && !auto_approve && answer is Some ==> r@ == (if spec_is_reject_word(
            answer->Some_0@,
        ) {
            "REJECT"@
        } else {
            "APPROVE"@
        }),
{
    if no_approve {
        String::from_str("REJECT")
    } else if auto_approve {
        String::from_str("APPROVE")
    } else {
        match answer {
            None => String::from_str("APPROVE"),
            Some(a) => {
                let reject = *a == String::from_str("r") || *a == String::from_str("reject") || *a
                    == String::from_str("n") || *a == String::from_str("no");
                if reject {
                    String::from_str("REJECT")
                } else {
                    String::from_str("APPROVE")
                }
            },
        }
    }
}

/// The permission decision of the interactive client: `--approve` (or no
/// terminal) grants; otherwise only a lowercased answer of `n` denies.
pub fn permission_grant(auto_approve: bool, answer: Option<&String>) -> (r: bool)
    ensures
        auto_approve || answer is None ==> r == true,
        !auto_approve && answer is Some ==> r == (answer->Some_0@ != "n"@),
{
    if auto_approve {
        true
    } else {
        match answer {
            None => true,
            Some(a) => !(*a == String::from_str("n")),
        }
    }
}

} // verus!
