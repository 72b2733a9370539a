//! The remote protocol: binary envelopes exchanged with the orchestrator.
//! An envelope carries an integer type tag and an opaque payload; the tag
//! selects which typed sub-message the payload decodes to, so decoding is
//! tag-directed, never structural guessing.

use vstd::prelude::*;
use vstd::string::*;
use crate::wire::{wr_parts, rd_frame, lemma_frame_round_trip, strs_view};

verus! {

/// The closed set of remote message type tags.
#[derive(Clone, Copy, Debug, PartialEq, Eq, Structural)]
pub enum MessageType {
    Unknown,
    Heartbeat,
    UserRequest,
    PlanProposal,
    PlanApproval,
    Command,
    CommandResult,
    ProgressUpdate,
    CommandRequest,
    CommandResponse,
    HealthReport,
    AuthResponse,
}

impl MessageType {
    /// The integer wire tag of this type.
    pub open spec fn spec_tag(self) -> i32 {
        match self {
            MessageType::Unknown => 0,
            MessageType::Heartbeat => 1,
            MessageType::UserRequest => 2,
            MessageType::PlanProposal => 3,
            MessageType::PlanApproval => 4,
            MessageType::Command => 5,
            MessageType::CommandResult => 6,
            MessageType::ProgressUpdate => 7,
            MessageType::CommandRequest => 8,
            MessageType::CommandResponse => 9,
            MessageType::HealthReport => 10,
            MessageType::AuthResponse => 14,
        }
    }

    pub fn tag(self) -> (r: i32)
        ensures
            r == self.spec_tag(),
    {
        match self {
            MessageType::Unknown => 0,
            MessageType::Heartbeat => 1,
            MessageType::UserRequest => 2,
            MessageType::PlanProposal => 3,
            MessageType::PlanApproval => 4,
            MessageType::Command => 5,
            MessageType::CommandResult => 6,
            MessageType::ProgressUpdate => 7,
            MessageType::CommandRequest => 8,
            MessageType::CommandResponse => 9,
            MessageType::HealthReport => 10,
            MessageType::AuthResponse => 14,
        }
    }

    pub open spec fn spec_from_tag(t: i32) -> Option<MessageType> {
        if t == 0 {
            Some(MessageType::Unknown)
        } else if t == 1 {
            Some(MessageType::Heartbeat)
        } else if t == 2 {
            Some(MessageType::UserRequest)
        } else if t == 3 {
            Some(MessageType::PlanProposal)
        } else if t == 4 {
            Some(MessageType::PlanApproval)
        } else if t == 5 {
            Some(MessageType::Command)
        } else if t == 6 {
            Some(MessageType::CommandResult)
        } else if t == 7 {
            Some(MessageType::ProgressUpdate)
        } else if t == 8 {
            Some(MessageType::CommandRequest)
        } else if t == 9 {
            Some(MessageType::CommandResponse)
        } else if t == 10 {
            Some(MessageType::HealthReport)
        } else if t == 14 {
            Some(MessageType::AuthResponse)
        } else {
            None
        }
    }

    /// Tag-directed dispatch: the inverse of `tag` where one exists.
    pub fn from_tag(t: i32) -> (r: Option<MessageType>)
        ensures
            r == Self::spec_from_tag(t),
            forall|m: MessageType| t == m.spec_tag() ==> r == Some(m),
    {
        let r = if t == 0 {
            Some(MessageType::Unknown)
        } else if t == 1 {
            Some(MessageType::Heartbeat)
        } else if t == 2 {
            Some(MessageType::UserRequest)
        } else if t == 3 {
            Some(MessageType::PlanProposal)
        } else if t == 4 {
            Some(MessageType::PlanApproval)
        } else if t == 5 {
            Some(MessageType::Command)
        } else if t == 6 {
            Some(MessageType::CommandResult)
        } else if t == 7 {
            Some(MessageType::ProgressUpdate)
        } else if t == 8 {
            Some(MessageType::CommandRequest)
        } else if t == 9 {
            Some(MessageType::CommandResponse)
        } else if t == 10 {
            Some(MessageType::HealthReport)
        } else if t == 14 {
            Some(MessageType::AuthResponse)
        } else {
            None
        };
        r
    }
}

/// Action values carried by a `PlanApproval`.
#[derive(Clone, Copy, Debug, PartialEq, Eq, Structural)]
pub enum ApprovalAction {
    Unknown,
    Approve,
    Reject,
}

impl ApprovalAction {
    pub open spec fn spec_tag(self) -> i32 {
        match self {
            ApprovalAction::Unknown => 0,
            ApprovalAction::Approve => 1,
            ApprovalAction::Reject => 2,
        }
    }

    pub fn tag(self) -> (r: i32)
        ensures
            r == self.spec_tag(),
    {
        match self {
            ApprovalAction::Unknown => 0,
            ApprovalAction::Approve => 1,
            ApprovalAction::Reject => 2,
        }
    }
}

// ───────────────────────── cast helpers ─────────────────────────

proof fn lemma_i64_cast(x: i64)
    ensures
        ((x as u64) as i64) == x,
{
    assert(((x as u64) as i64) == x) by (bit_vector);
}

proof fn lemma_i32_cast(x: i32)
    ensures
        ((x as u64) as i32) == x,
{
    assert(((x as u64) as i32) == x) by (bit_vector);
}

// ───────────────────────── message types ─────────────────────────

/// A request from the user to the orchestrator.
pub struct UserRequest {
    pub text: String,
}

/// One step of a proposed plan.
pub struct PlanStep {
    pub step_number: i32,
    pub description: String,
    pub agent_name: String,
}

pub struct PlanStepV {
    pub step_number: i32,
    pub description: Seq<char>,
    pub agent_name: Seq<char>,
}

impl View for PlanStep {
    type V = PlanStepV;

    open spec fn view(&self) -> PlanStepV {
        PlanStepV {
            step_number: self.step_number,
            description: self.description@,
            agent_name: self.agent_name@,
        }
    }
}

/// A proposed plan; credits are counted in hundredths of a credit.
pub struct PlanProposal {
    pub task_id: String,
    pub summary: String,
    pub estimated_credits: u64,
    pub steps: Vec<PlanStep>,
}

/// Approval or rejection of a proposed plan.
pub struct PlanApproval {
    pub task_id: String,
    pub action: i32,
}

/// A shell command for the daemon to execute.
pub struct Command {
    pub id: String,
    pub task_id: String,
    pub step_number: i32,
    pub shell_command: String,
    pub timeout_ms: i64,
}

/// The outcome of an executed command.
pub struct CommandResult {
    pub command_id: String,
    pub task_id: String,
    pub success: bool,
    pub stdout: String,
    pub stderr: String,
    pub exit_code: i32,
    pub duration_ms: i64,
}

/// Progress of a running task.
pub struct ProgressUpdate {
    pub task_id: String,
    pub step_number: i32,
    pub message: String,
    pub percent_complete: i32,
}

/// The remote envelope: id, session, timestamp, type tag, opaque payload.
pub struct Envelope {
    pub id: String,
    pub session_id: String,
    pub timestamp_ms: i64,
    pub msg_type: i32,
    pub payload: Vec<u8>,
}

pub struct EnvelopeV {
    pub id: Seq<char>,
    pub session_id: Seq<char>,
    pub timestamp_ms: i64,
    pub msg_type: i32,
    pub payload: Seq<u8>,
}

impl View for Envelope {
    type V = EnvelopeV;

    open spec fn view(&self) -> EnvelopeV {
        EnvelopeV {
            id: self.id@,
            session_id: self.session_id@,
            timestamp_ms: self.timestamp_ms,
            msg_type: self.msg_type,
            payload: self.payload@,
        }
    }
}

// ───────────────────────── envelope codec ─────────────────────────

pub open spec fn env_fits(e: EnvelopeV) -> bool {
    &&& e.id.len() <= u64::MAX
    &&& e.session_id.len() <= u64::MAX
    &&& e.payload.len() <= u64::MAX
}

pub open spec fn spec_encode_envelope(e: EnvelopeV) -> Seq<u8> {
    wr_parts(
        seq![e.timestamp_ms as u64, e.msg_type as u64],
        seq![e.id, e.session_id],
        e.payload,
    )
}

pub open spec fn spec_decode_envelope(b: Seq<u8>) -> Option<EnvelopeV> {
    match rd_frame(b) {
        Some((ns, ss, blob)) => {
            if ns.len() == 2 && ss.len() == 2 {
                Some(
                    EnvelopeV {
                        id: ss[0],
                        session_id: ss[1],
                        timestamp_ms: ns[0] as i64,
                        msg_type: ns[1] as i32,
                        payload: blob,
                    },
                )
            } else {
                None
            }
        },
        None => None,
    }
}

/// The remote envelope's round trip.
pub proof fn lemma_envelope_round_trip(e: EnvelopeV)
    requires
        env_fits(e),
    ensures
        spec_decode_envelope(spec_encode_envelope(e)) == Some(e),
{
    lemma_frame_round_trip(
        seq![e.timestamp_ms as u64, e.msg_type as u64],
        seq![e.id, e.session_id],
        e.payload,
    );
    lemma_i64_cast(e.timestamp_ms);
    lemma_i32_cast(e.msg_type);
}

impl Envelope {
    /// Encodes this envelope to its wire bytes.
    pub fn encode_to_vec(&self) -> (r: Vec<u8>)
        ensures
            r@ == spec_encode_envelope(self@),
            env_fits(self@),
    {
        let mut nums: Vec<u64> = Vec::new();
        nums.push(self.timestamp_ms as u64);
        nums.push(self.msg_type as u64);
        let mut strs: Vec<String> = Vec::new();
        strs.push(self.id.clone());
        strs.push(self.session_id.clone());
        let out = crate::wire::encode_frame(&nums, &strs, &self.payload);
        proof {
            assert(nums@ =~= seq![self.timestamp_ms as u64, self.msg_type as u64]);
            assert(strs_view(strs@) =~= seq![self.id@, self.session_id@]);
        }
        out
    }

    /// Decodes wire bytes into an envelope; `None` is a malformed frame.
    pub fn decode(b: &Vec<u8>) -> (r: Option<Envelope>)
        ensures
            match r {
                Some(e) => spec_decode_envelope(b@) == Some(e@),
                None => spec_decode_envelope(b@) is None,
            },
    {
        let parts = match crate::wire::decode_frame(b) {
            Some(p) => p,
            None => {
                return None;
            },
        };
        if parts.nums.len() != 2 || parts.strs.len() != 2 {
            return None;
        }
        Some(
            Envelope {
                id: parts.strs[0].clone(),
                session_id: parts.strs[1].clone(),
                timestamp_ms: parts.nums[0] as i64,
                msg_type: parts.nums[1] as i32,
                payload: parts.blob,
            },
        )
    }
}

// ───────────────────────── sub-message views ─────────────────────────

pub struct UserRequestV {
    pub text: Seq<char>,
}

impl View for UserRequest {
    type V = UserRequestV;

    open spec fn view(&self) -> UserRequestV {
        UserRequestV { text: self.text@ }
    }
}

pub struct PlanProposalV {
    pub task_id: Seq<char>,
    pub summary: Seq<char>,
    pub estimated_credits: u64,
    pub steps: Seq<PlanStepV>,
}

impl View for PlanProposal {
    type V = PlanProposalV;

    open spec fn view(&self) -> PlanProposalV {
        PlanProposalV {
            task_id: self.task_id@,
            summary: self.summary@,
            estimated_credits: self.estimated_credits,
            steps: self.steps@.map_values(|s: PlanStep| s@),
        }
    }
}

pub struct PlanApprovalV {
    pub task_id: Seq<char>,
    pub action: i32,
}

impl View for PlanApproval {
    type V = PlanApprovalV;

    open spec fn view(&self) -> PlanApprovalV {
        PlanApprovalV { task_id: self.task_id@, action: self.action }
    }
}

pub struct CommandV {
    pub id: Seq<char>,
    pub task_id: Seq<char>,
    pub step_number: i32,
    pub shell_command: Seq<char>,
    pub timeout_ms: i64,
}

impl View for Command {
    type V = CommandV;

    open spec fn view(&self) -> CommandV {
        CommandV {
            id: self.id@,
            task_id: self.task_id@,
            step_number: self.step_number,
            shell_command: self.shell_command@,
            timeout_ms: self.timeout_ms,
        }
    }
}

pub struct CommandResultV {
    pub command_id: Seq<char>,
    pub task_id: Seq<char>,
    pub success: bool,
    pub stdout: Seq<char>,
    pub stderr: Seq<char>,
    pub exit_code: i32,
    pub duration_ms: i64,
}

impl View for CommandResult {
    type V = CommandResultV;

    open spec fn view(&self) -> CommandResultV {
        CommandResultV {
            command_id: self.command_id@,
            task_id: self.task_id@,
            success: self.success,
            stdout: self.stdout@,
            stderr: self.stderr@,
            exit_code: self.exit_code,
            duration_ms: self.duration_ms,
        }
    }
}

pub struct ProgressUpdateV {
    pub task_id: Seq<char>,
    pub step_number: i32,
    pub message: Seq<char>,
    pub percent_complete: i32,
}

impl View for ProgressUpdate {
    type V = ProgressUpdateV;

    open spec fn view(&self) -> ProgressUpdateV {
        ProgressUpdateV {
            task_id: self.task_id@,
            step_number: self.step_number,
            message: self.message@,
            percent_complete: self.percent_complete,
        }
    }
}

// ───────────────────────── sub-message codecs ─────────────────────────

pub open spec fn bnum(b: bool) -> u64 {
    if b {
        1
    } else {
        0
    }
}

pub open spec fn spec_encode_user_request(m: UserRequestV) -> Seq<u8> {
    wr_parts(seq![], seq![m.text], seq![])
}

pub open spec fn spec_decode_user_request(b: Seq<u8>) -> Option<UserRequestV> {
    match rd_frame(b) {
        Some((ns, ss, blob)) => {
            if ns.len() == 0 && ss.len() == 1 && blob.len() == 0 {
                Some(UserRequestV { text: ss[0] })
            } else {
                None
            }
        },
        None => None,
    }
}

pub proof fn lemma_user_request_round_trip(m: UserRequestV)
    requires
        m.text.len() <= u64::MAX,
    ensures
        spec_decode_user_request(spec_encode_user_request(m)) == Some(m),
{
    lemma_frame_round_trip(seq![], seq![m.text], seq![]);
}

impl UserRequest {
    pub fn encode_to_vec(&self) -> (r: Vec<u8>)
        ensures
            r@ == spec_encode_user_request(self@),
            self.text@.len() <= u64::MAX,
    {
        let nums: Vec<u64> = Vec::new();
        let mut strs: Vec<String> = Vec::new();
        strs.push(self.text.clone());
        let blob: Vec<u8> = Vec::new();
        let out = crate::wire::encode_frame(&nums, &strs, &blob);
        proof {
            assert(nums@ =~= Seq::<u64>::empty());
            assert(strs_view(strs@) =~= seq![self.text@]);
            assert(blob@ =~= Seq::<u8>::empty());
        }
        out
    }

    pub fn decode(b: &Vec<u8>) -> (r: Option<UserRequest>)
        ensures
            match r {
                Some(m) => spec_decode_user_request(b@) == Some(m@),
                None => spec_decode_user_request(b@) is None,
            },
    {
        let parts = match crate::wire::decode_frame(b) {
            Some(p) => p,
            None => {
                return None;
            },
        };
        if parts.nums.len() != 0 || parts.strs.len() != 1 || parts.blob.len() != 0 {
            return None;
        }
        Some(UserRequest { text: parts.strs[0].clone() })
    }
}

pub open spec fn spec_encode_plan_approval(m: PlanApprovalV) -> Seq<u8> {
    wr_parts(seq![m.action as u64], seq![m.task_id], seq![])
}

pub open spec fn spec_decode_plan_approval(b: Seq<u8>) -> Option<PlanApprovalV> {
    match rd_frame(b) {
        Some((ns, ss, blob)) => {
            if ns.len() == 1 && ss.len() == 1 && blob.len() == 0 {
                Some(PlanApprovalV { task_id: ss[0], action: ns[0] as i32 })
            } else {
                None
            }
        },
        None => None,
    }
}

pub proof fn lemma_plan_approval_round_trip(m: PlanApprovalV)
    requires
        m.task_id.len() <= u64::MAX,
    ensures
        spec_decode_plan_approval(spec_encode_plan_approval(m)) == Some(m),
{
    lemma_frame_round_trip(seq![m.action as u64], seq![m.task_id], seq![]);
    lemma_i32_cast(m.action);
}

impl PlanApproval {
    pub fn encode_to_vec(&self) -> (r: Vec<u8>)
        ensures
            r@ == spec_encode_plan_approval(self@),
            self.task_id@.len() <= u64::MAX,
    {
        let mut nums: Vec<u64> = Vec::new();
        nums.push(self.action as u64);
        let mut strs: Vec<String> = Vec::new();
        strs.push(self.task_id.clone());
        let blob: Vec<u8> = Vec::new();
        let out = crate::wire::encode_frame(&nums, &strs, &blob);
        proof {
            assert(nums@ =~= seq![self.action as u64]);
            assert(strs_view(strs@) =~= seq![self.task_id@]);
            assert(blob@ =~= Seq::<u8>::empty());
        }
        out
    }

    pub fn decode(b: &Vec<u8>) -> (r: Option<PlanApproval>)
        ensures
            match r {
                Some(m) => spec_decode_plan_approval(b@) == Some(m@),
                None => spec_decode_plan_approval(b@) is None,
            },
    {
        let parts = match crate::wire::decode_frame(b) {
            Some(p) => p,
            None => {
                return None;
            },
        };
        if parts.nums.len() != 1 || parts.strs.len() != 1 || parts.blob.len() != 0 {
            return None;
        }
        Some(PlanApproval { task_id: parts.strs[0].clone(), action: parts.nums[0] as i32 })
    }
}

pub open spec fn spec_encode_command(m: CommandV) -> Seq<u8> {
    wr_parts(
        seq![m.step_number as u64, m.timeout_ms as u64],
        seq![m.id, m.task_id, m.shell_command],
        seq![],
    )
}

pub open spec fn spec_decode_command(b: Seq<u8>) -> Option<CommandV> {
    match rd_frame(b) {
        Some((ns, ss, blob)) => {
            if ns.len() == 2 && ss.len() == 3 && blob.len() == 0 {
                Some(
                    CommandV {
                        id: ss[0],
                        task_id: ss[1],
                        step_number: ns[0] as i32,
                        shell_command: ss[2],
                        timeout_ms: ns[1] as i64,
                    },
                )
            } else {
                None
            }
        },
        None => None,
    }
}

pub proof fn lemma_command_round_trip(m: CommandV)
    requires
        m.id.len() <= u64::MAX,
        m.task_id.len() <= u64::MAX,
        m.shell_command.len() <= u64::MAX,
    ensures
        spec_decode_command(spec_encode_command(m)) == Some(m),
{
    lemma_frame_round_trip(
        seq![m.step_number as u64, m.timeout_ms as u64],
        seq![m.id, m.task_id, m.shell_command],
        seq![],
    );
    lemma_i32_cast(m.step_number);
    lemma_i64_cast(m.timeout_ms);
}

impl Command {
    pub fn encode_to_vec(&self) -> (r: Vec<u8>)
        ensures
            r@ == spec_encode_command(self@),
            self.id@.len() <= u64::MAX,
            self.task_id@.len() <= u64::MAX,
            self.shell_command@.len() <= u64::MAX,
    {
        let mut nums: Vec<u64> = Vec::new();
        nums.push(self.step_number as u64);
        nums.push(self.timeout_ms as u64);
        let mut strs: Vec<String> = Vec::new();
        strs.push(self.id.clone());
        strs.push(self.task_id.clone());
        strs.push(self.shell_command.clone());
        let blob: Vec<u8> = Vec::new();
        let out = crate::wire::encode_frame(&nums, &strs, &blob);
        proof {
            assert(nums@ =~= seq![self.step_number as u64, self.timeout_ms as u64]);
            assert(strs_view(strs@) =~= seq![self.id@, self.task_id@, self.shell_command@]);
            assert(blob@ =~= Seq::<u8>::empty());
        }
        out
    }

    pub fn decode(b: &Vec<u8>) -> (r: Option<Command>)
        ensures
            match r {
                Some(m) => spec_decode_command(b@) == Some(m@),
                None => spec_decode_command(b@) is None,
            },
    {
        let parts = match crate::wire::decode_frame(b) {
            Some(p) => p,
            None => {
                return None;
            },
        };
        if parts.nums.len() != 2 || parts.strs.len() != 3 || parts.blob.len() != 0 {
            return None;
        }
        Some(
            Command {
                id: parts.strs[0].clone(),
                task_id: parts.strs[1].clone(),
                step_number: parts.nums[0] as i32,
                shell_command: parts.strs[2].clone(),
                timeout_ms: parts.nums[1] as i64,
            },
        )
    }
}

pub open spec fn spec_encode_command_result(m: CommandResultV) -> Seq<u8> {
    wr_parts(
        seq![bnum(m.success), m.exit_code as u64, m.duration_ms as u64],
        seq![m.command_id, m.task_id, m.stdout, m.stderr],
        seq![],
    )
}

pub open spec fn spec_decode_command_result(b: Seq<u8>) -> Option<CommandResultV> {
    match rd_frame(b) {
        Some((ns, ss, blob)) => {
            if ns.len() == 3 && (ns[0] == 0 || ns[0] == 1) && ss.len() == 4 && blob.len() == 0 {
                Some(
                    CommandResultV {
                        command_id: ss[0],
                        task_id: ss[1],
                        success: ns[0] == 1,
                        stdout: ss[2],
                        stderr: ss[3],
                        exit_code: ns[1] as i32,
                        duration_ms: ns[2] as i64,
                    },
                )
            } else {
                None
            }
        },
        None => None,
    }
}

pub proof fn lemma_command_result_round_trip(m: CommandResultV)
    requires
        m.command_id.len() <= u64::MAX,
        m.task_id.len() <= u64::MAX,
        m.stdout.len() <= u64::MAX,
        m.stderr.len() <= u64::MAX,
    ensures
        spec_decode_command_result(spec_encode_command_result(m)) == Some(m),
{
    lemma_frame_round_trip(
        seq![bnum(m.success), m.exit_code as u64, m.duration_ms as u64],
        seq![m.command_id, m.task_id, m.stdout, m.stderr],
        seq![],
    );
    lemma_i32_cast(m.exit_code);
    lemma_i64_cast(m.duration_ms);
}

impl CommandResult {
    pub fn encode_to_vec(&self) -> (r: Vec<u8>)
        ensures
            r@ == spec_encode_command_result(self@),
            self.command_id@.len() <= u64::MAX,
            self.task_id@.len() <= u64::MAX,
            self.stdout@.len() <= u64::MAX,
            self.stderr@.len() <= u64::MAX,
    {
        let mut nums: Vec<u64> = Vec::new();
        nums.push(if self.success { 1 } else { 0 });
        nums.push(self.exit_code as u64);
        nums.push(self.duration_ms as u64);
        let mut strs: Vec<String> = Vec::new();
        strs.push(self.command_id.clone());
        strs.push(self.task_id.clone());
        strs.push(self.stdout.clone());
        strs.push(self.stderr.clone());
        let blob: Vec<u8> = Vec::new();
        let out = crate::wire::encode_frame(&nums, &strs, &blob);
        proof {
            assert(nums@ =~= seq![
                bnum(self.success),
                self.exit_code as u64,
                self.duration_ms as u64,
            ]);
            assert(strs_view(strs@) =~= seq![
                self.command_id@,
                self.task_id@,
                self.stdout@,
                self.stderr@,
            ]);
            assert(blob@ =~= Seq::<u8>::empty());
        }
        out
    }

    pub fn decode(b: &Vec<u8>) -> (r: Option<CommandResult>)
        ensures
            match r {
                Some(m) => spec_decode_command_result(b@) == Some(m@),
                None => spec_decode_command_result(b@) is None,
            },
    {
        let parts = match crate::wire::decode_frame(b) {
            Some(p) => p,
            None => {
                return None;
            },
        };
        if parts.nums.len() != 3 || parts.strs.len() != 4 || parts.blob.len() != 0 {
            return None;
        }
        if parts.nums[0] > 1 {
            return None;
        }
        Some(
            CommandResult {
                command_id: parts.strs[0].clone(),
                task_id: parts.strs[1].clone(),
                success: parts.nums[0] == 1,
                stdout: parts.strs[2].clone(),
                stderr: parts.strs[3].clone(),
                exit_code: parts.nums[1] as i32,
                duration_ms: parts.nums[2] as i64,
            },
        )
    }
}

// ───────────────────────── plan proposal codec ─────────────────────────

pub open spec fn steps_nums(ss: Seq<PlanStepV>) -> Seq<u64>
    decreases ss.len(),
{
    if ss.len() == 0 {
        seq![]
    } else {
        seq![ss[0].step_number as u64] + steps_nums(ss.drop_first())
    }
}

pub open spec fn steps_strs(ss: Seq<PlanStepV>) -> Seq<Seq<char>>
    decreases ss.len(),
{
    if ss.len() == 0 {
        seq![]
    } else {
        seq![ss[0].description, ss[0].agent_name] + steps_strs(ss.drop_first())
    }
}

pub open spec fn steps_from(ns: Seq<u64>, ss: Seq<Seq<char>>) -> Seq<PlanStepV>
    decreases ns.len(),
{
    if ns.len() == 0 {
        seq![]
    } else {
        seq![
            PlanStepV {
                step_number: ns[0] as i32,
                description: if ss.len() >= 2 {
                    ss[0]
                } else {
                    Seq::empty()
                },
                agent_name: if ss.len() >= 2 {
                    ss[1]
                } else {
                    Seq::empty()
                },
            },
        ] + steps_from(ns.drop_first(), ss.skip(2))
    }
}

proof fn lemma_steps_lens(ss: Seq<PlanStepV>)
    ensures
        steps_nums(ss).len() == ss.len(),
        steps_strs(ss).len() == 2 * ss.len(),
    decreases ss.len(),
{
    if ss.len() > 0 {
        lemma_steps_lens(ss.drop_first());
    }
}

proof fn lemma_steps_round_trip(ss: Seq<PlanStepV>)
    ensures
        steps_from(steps_nums(ss), steps_strs(ss)) == ss,
    decreases ss.len(),
{
    lemma_steps_lens(ss);
    if ss.len() == 0 {
        assert(steps_from(steps_nums(ss), steps_strs(ss)) =~= ss);
    } else {
        let rest = ss.drop_first();
        lemma_steps_lens(rest);
        lemma_i32_cast(ss[0].step_number);
        assert(steps_nums(ss).drop_first() =~= steps_nums(rest));
        assert(steps_strs(ss).skip(2) =~= steps_strs(rest));
        lemma_steps_round_trip(rest);
        assert(steps_from(steps_nums(ss), steps_strs(ss)) =~= ss);
    }
}

pub open spec fn proposal_fits(m: PlanProposalV) -> bool {
    &&& m.task_id.len() <= u64::MAX
    &&& m.summary.len() <= u64::MAX
    &&& 2 + 2 * m.steps.len() <= u64::MAX
    &&& forall|i: int|
        0 <= i < m.steps.len() ==> (#[trigger] m.steps[i].description.len() <= u64::MAX
            && m.steps[i].agent_name.len() <= u64::MAX)
}

pub open spec fn spec_encode_plan_proposal(m: PlanProposalV) -> Seq<u8> {
    wr_parts(
        seq![m.estimated_credits] + steps_nums(m.steps),
        seq![m.task_id, m.summary] + steps_strs(m.steps),
        seq![],
    )
}

pub open spec fn spec_decode_plan_proposal(b: Seq<u8>) -> Option<PlanProposalV> {
    match rd_frame(b) {
        Some((ns, ss, blob)) => {
            if ns.len() >= 1 && ss.len() == 2 + 2 * (ns.len() - 1) && blob.len() == 0 {
                Some(
                    PlanProposalV {
                        task_id: ss[0],
                        summary: ss[1],
                        estimated_credits: ns[0],
                        steps: steps_from(ns.skip(1), ss.skip(2)),
                    },
                )
            } else {
                None
            }
        },
        None => None,
    }
}

pub proof fn lemma_plan_proposal_round_trip(m: PlanProposalV)
    requires
        proposal_fits(m),
    ensures
        spec_decode_plan_proposal(spec_encode_plan_proposal(m)) == Some(m),
{
    let ns = seq![m.estimated_credits] + steps_nums(m.steps);
    let ss = seq![m.task_id, m.summary] + steps_strs(m.steps);
    lemma_steps_lens(m.steps);
    assert forall|i: int| 0 <= i < ss.len() implies #[trigger] ss[i].len() <= u64::MAX by {
        if i >= 2 {
            lemma_steps_strs_index(m.steps, i - 2);
        }
    }
    lemma_frame_round_trip(ns, ss, seq![]);
    assert(ns.skip(1) =~= steps_nums(m.steps));
    assert(ss.skip(2) =~= steps_strs(m.steps));
    lemma_steps_round_trip(m.steps);
}

proof fn lemma_steps_strs_index(ss: Seq<PlanStepV>, j: int)
    requires
        0 <= j < 2 * ss.len(),
        forall|i: int|
            0 <= i < ss.len() ==> (#[trigger] ss[i].description.len() <= u64::MAX
                && ss[i].agent_name.len() <= u64::MAX),
    ensures
        steps_strs(ss)[j].len() <= u64::MAX,
    decreases ss.len(),
{
    lemma_steps_lens(ss);
    if j >= 2 {
        let rest = ss.drop_first();
        assert(forall|i: int|
            0 <= i < rest.len() ==> (#[trigger] rest[i].description.len() <= u64::MAX
                && rest[i].agent_name.len() <= u64::MAX)) by {
            assert(forall|i: int| 0 <= i < rest.len() ==> rest[i] == ss[i + 1]);
        }
        lemma_steps_strs_index(rest, j - 2);
        assert(steps_strs(ss)[j] == steps_strs(rest)[j - 2]);
    } else {
        assert(ss[0].description.len() <= u64::MAX && ss[0].agent_name.len() <= u64::MAX);
    }
}

impl PlanProposal {
    pub fn encode_to_vec(&self) -> (r: Vec<u8>)
        ensures
            r@ == spec_encode_plan_proposal(self@),
            proposal_fits(self@),
    {
        let mut nums: Vec<u64> = Vec::new();
        nums.push(self.estimated_credits);
        let mut strs: Vec<String> = Vec::new();
        strs.push(self.task_id.clone());
        strs.push(self.summary.clone());
        let n = self.steps.len();
        let mut i: usize = 0;
        while i < n
            invariant
                i <= n,
                n == self.steps@.len(),
                nums@ == seq![self.estimated_credits] + steps_nums(
                    self.steps@.map_values(|s: PlanStep| s@).take(i as int),
                ),
                strs_view(strs@) == seq![self.task_id@, self.summary@] + steps_strs(
                    self.steps@.map_values(|s: PlanStep| s@).take(i as int),
                ),
            decreases n - i,
        {
            let ghost strs_before = strs@;
            nums.push(self.steps[i].step_number as u64);
            strs.push(self.steps[i].description.clone());
            strs.push(self.steps[i].agent_name.clone());
            proof {
                let sv = self.steps@.map_values(|s: PlanStep| s@);
                assert(sv[i as int] == self.steps@[i as int]@);
                lemma_steps_snoc(sv.take(i as int), sv[i as int]);
                assert(sv.take(i as int).push(sv[i as int]) =~= sv.take(i as int + 1));
                assert(strs_view(strs@) =~= strs_view(strs_before) + seq![
                    sv[i as int].description,
                    sv[i as int].agent_name,
                ]);
                assert(nums@ =~= seq![self.estimated_credits] + steps_nums(
                    sv.take(i as int + 1),
                ));
                assert(strs_view(strs@) =~= seq![self.task_id@, self.summary@] + steps_strs(
                    sv.take(i as int + 1),
                ));
            }
            i = i + 1;
        }
        let blob: Vec<u8> = Vec::new();
        let out = crate::wire::encode_frame(&nums, &strs, &blob);
        proof {
            let sv = self.steps@.map_values(|s: PlanStep| s@);
            assert(sv.take(n as int) =~= sv);
            assert(blob@ =~= Seq::<u8>::empty());
            lemma_steps_lens(sv);
            let full = strs_view(strs@);
            assert(full == seq![self.task_id@, self.summary@] + steps_strs(sv));
            assert forall|j: int| 0 <= j < sv.len() implies (#[trigger] sv[j].description.len()
                <= u64::MAX && sv[j].agent_name.len() <= u64::MAX) by {
                lemma_steps_strs_at(sv, j);
                assert(full[2 + 2 * j] == steps_strs(sv)[2 * j]);
                assert(full[2 + 2 * j + 1] == steps_strs(sv)[2 * j + 1]);
                assert(full[2 + 2 * j].len() <= u64::MAX);
                assert(full[2 + 2 * j + 1].len() <= u64::MAX);
            }
            assert(self.task_id@ == full[0] && self.summary@ == full[1]);
            assert(self.task_id@.len() <= u64::MAX);
            assert(self.summary@.len() <= u64::MAX);
            assert(full.len() == 2 + 2 * sv.len());
            assert(2 + 2 * sv.len() <= u64::MAX);
            assert(proposal_fits(self@));
        }
        out
    }

    pub fn decode(b: &Vec<u8>) -> (r: Option<PlanProposal>)
        ensures
            match r {
                Some(m) => spec_decode_plan_proposal(b@) == Some(m@),
                None => spec_decode_plan_proposal(b@) is None,
            },
    {
        let parts = match crate::wire::decode_frame(b) {
            Some(p) => p,
            None => {
                return None;
            },
        };
        if parts.nums.len() < 1 || parts.blob.len() != 0 {
            return None;
        }
        let n = parts.nums.len() - 1;
        if parts.strs.len() < 2 {
            return None;
        }
        let m2 = parts.strs.len() - 2;
        if m2 % 2 != 0 || m2 / 2 != n {
            return None;
        }
        let ghost sn = parts.nums@.skip(1);
        let ghost sstr = strs_view(parts.strs@).skip(2);
        proof {
            assert(parts.strs@.len() == 2 + 2 * n);
            lemma_steps_from_len(sn, sstr);
        }
        let mut steps: Vec<PlanStep> = Vec::new();
        let mut i: usize = 0;
        let strs_len: usize = parts.strs.len();
        while i < n
            invariant
                i <= n,
                n + 1 == parts.nums@.len(),
                parts.strs@.len() == 2 + 2 * n,
                parts.strs@.len() == strs_len,
                sn == parts.nums@.skip(1),
                sstr == strs_view(parts.strs@).skip(2),
                steps@.map_values(|s: PlanStep| s@) == steps_from(sn, sstr).take(i as int),
                steps_from(sn, sstr).len() == n,
            decreases n - i,
        {
            let ghost steps_before = steps@;
            let step = PlanStep {
                step_number: parts.nums[1 + i] as i32,
                description: parts.strs[2 + 2 * i].clone(),
                agent_name: parts.strs[3 + 2 * i].clone(),
            };
            steps.push(step);
            proof {
                lemma_steps_from_index(sn, sstr, i as int);
                assert(sn[i as int] == parts.nums@[1 + i as int]);
                assert(sstr[2 * i as int] == parts.strs@[2 + 2 * i as int]@);
                assert(sstr[2 * i as int + 1] == parts.strs@[3 + 2 * i as int]@);
                assert(steps@ == steps_before.push(step));
                assert(step@ == steps_from(sn, sstr)[i as int]);
                assert(steps@.map_values(|s: PlanStep| s@) =~= steps_before.map_values(
                    |s: PlanStep| s@,
                ).push(step@));
                assert(steps_from(sn, sstr).take(i as int + 1) =~= steps_from(sn, sstr).take(
                    i as int,
                ).push(steps_from(sn, sstr)[i as int]));
            }
            i = i + 1;
        }
        proof {
            assert(steps_from(sn, sstr).take(n as int) =~= steps_from(sn, sstr));
        }
        Some(
            PlanProposal {
                task_id: parts.strs[0].clone(),
                summary: parts.strs[1].clone(),
                estimated_credits: parts.nums[0],
                steps,
            },
        )
    }
}

proof fn lemma_steps_snoc(ss: Seq<PlanStepV>, s: PlanStepV)
    ensures
        steps_nums(ss.push(s)) == steps_nums(ss) + seq![s.step_number as u64],
        steps_strs(ss.push(s)) == steps_strs(ss) + seq![s.description, s.agent_name],
    decreases ss.len(),
{
    if ss.len() == 0 {
        assert(ss.push(s)[0] == s);
        assert(ss.push(s).drop_first() =~= ss);
        assert(steps_nums(ss) == Seq::<u64>::empty());
        assert(steps_strs(ss) == Seq::<Seq<char>>::empty());
        assert(steps_nums(ss.push(s)) =~= steps_nums(ss) + seq![s.step_number as u64]);
        assert(steps_strs(ss.push(s)) =~= steps_strs(ss) + seq![s.description, s.agent_name]);
    } else {
        assert(ss.push(s)[0] == ss[0]);
        assert(ss.push(s).drop_first() =~= ss.drop_first().push(s));
        lemma_steps_snoc(ss.drop_first(), s);
        assert(steps_nums(ss.push(s)) =~= steps_nums(ss) + seq![s.step_number as u64]);
        assert(steps_strs(ss.push(s)) =~= steps_strs(ss) + seq![s.description, s.agent_name]);
    }
}

proof fn lemma_steps_from_index(ns: Seq<u64>, ss: Seq<Seq<char>>, i: int)
    requires
        0 <= i < ns.len(),
        ss.len() == 2 * ns.len(),
    ensures
        steps_from(ns, ss).len() == ns.len(),
        steps_from(ns, ss)[i] == (PlanStepV {
            step_number: ns[i] as i32,
            description: ss[2 * i],
            agent_name: ss[2 * i + 1],
        }),
    decreases ns.len(),
{
    lemma_steps_from_len(ns, ss);
    if i > 0 {
        assert(ns.drop_first().len() * 2 == ss.skip(2).len());
        lemma_steps_from_index(ns.drop_first(), ss.skip(2), i - 1);
        assert(steps_from(ns, ss)[i] == steps_from(ns.drop_first(), ss.skip(2))[i - 1]);
        assert(ns.drop_first()[i - 1] == ns[i]);
        assert(ss.skip(2)[2 * (i - 1)] == ss[2 * i]);
        assert(ss.skip(2)[2 * (i - 1) + 1] == ss[2 * i + 1]);
    }
}

proof fn lemma_steps_from_len(ns: Seq<u64>, ss: Seq<Seq<char>>)
    ensures
        steps_from(ns, ss).len() == ns.len(),
    decreases ns.len(),
{
    if ns.len() > 0 {
        lemma_steps_from_len(ns.drop_first(), ss.skip(2));
    }
}

proof fn lemma_steps_strs_at(sv: Seq<PlanStepV>, j: int)
    requires
        0 <= j < sv.len(),
    ensures
        steps_strs(sv).len() == 2 * sv.len(),
        steps_strs(sv)[2 * j] == sv[j].description,
        steps_strs(sv)[2 * j + 1] == sv[j].agent_name,
    decreases sv.len(),
{
    lemma_steps_lens(sv);
    if j > 0 {
        lemma_steps_strs_at(sv.drop_first(), j - 1);
        assert(sv.drop_first()[j - 1] == sv[j]);
        assert(steps_strs(sv)[2 * j] == steps_strs(sv.drop_first())[2 * (j - 1)]);
        assert(steps_strs(sv)[2 * j + 1] == steps_strs(sv.drop_first())[2 * (j - 1) + 1]);
    }
}

pub open spec fn spec_encode_progress_update(m: ProgressUpdateV) -> Seq<u8> {
    wr_parts(
        seq![m.step_number as u64, m.percent_complete as u64],
        seq![m.task_id, m.message],
        seq![],
    )
}

pub open spec fn spec_decode_progress_update(b: Seq<u8>) -> Option<ProgressUpdateV> {
    match rd_frame(b) {
        Some((ns, ss, blob)) => {
            if ns.len() == 2 && ss.len() == 2 && blob.len() == 0 {
                Some(
                    ProgressUpdateV {
                        task_id: ss[0],
                        step_number: ns[0] as i32,
                        message: ss[1],
                        percent_complete: ns[1] as i32,
                    },
                )
            } else {
                None
            }
        },
        None => None,
    }
}

pub proof fn lemma_progress_update_round_trip(m: ProgressUpdateV)
    requires
        m.task_id.len() <= u64::MAX,
        m.message.len() <= u64::MAX,
    ensures
        spec_decode_progress_update(spec_encode_progress_update(m)) == Some(m),
{
    lemma_frame_round_trip(
        seq![m.step_number as u64, m.percent_complete as u64],
        seq![m.task_id, m.message],
        seq![],
    );
    lemma_i32_cast(m.step_number);
    lemma_i32_cast(m.percent_complete);
}

impl ProgressUpdate {
    pub fn encode_to_vec(&self) -> (r: Vec<u8>)
        ensures
            r@ == spec_encode_progress_update(self@),
            self.task_id@.len() <= u64::MAX,
            self.message@.len() <= u64::MAX,
    {
        let mut nums: Vec<u64> = Vec::new();
        nums.push(self.step_number as u64);
        nums.push(self.percent_complete as u64);
        let mut strs: Vec<String> = Vec::new();
        strs.push(self.task_id.clone());
        strs.push(self.message.clone());
        let blob: Vec<u8> = Vec::new();
        let out = crate::wire::encode_frame(&nums, &strs, &blob);
        proof {
            assert(nums@ =~= seq![self.step_number as u64, self.percent_complete as u64]);
            assert(strs_view(strs@) =~= seq![self.task_id@, self.message@]);
            assert(blob@ =~= Seq::<u8>::empty());
        }
        out
    }

    pub fn decode(b: &Vec<u8>) -> (r: Option<ProgressUpdate>)
        ensures
            match r {
                Some(m) => spec_decode_progress_update(b@) == Some(m@),
                None => spec_decode_progress_update(b@) is None,
            },
    {
        let parts = match crate::wire::decode_frame(b) {
            Some(p) => p,
            None => {
                return None;
            },
        };
        if parts.nums.len() != 2 || parts.strs.len() != 2 || parts.blob.len() != 0 {
            return None;
        }
        Some(
            ProgressUpdate {
                task_id: parts.strs[0].clone(),
                step_number: parts.nums[0] as i32,
                message: parts.strs[1].clone(),
                percent_complete: parts.nums[1] as i32,
            },
        )
    }
}

// ───────────────────────── session envelope ─────────────────────────

/// One metadata entry of a session envelope.
pub struct MetaEntry {
    pub key: String,
    pub value: String,
}

pub struct MetaEntryV {
    pub key: Seq<char>,
    pub value: Seq<char>,
}

impl View for MetaEntry {
    type V = MetaEntryV;

    open spec fn view(&self) -> MetaEntryV {
        MetaEntryV { key: self.key@, value: self.value@ }
    }
}

/// The session-scoped envelope the daemon exchanges with the orchestrator
/// right after connecting: like `Envelope`, with a metadata entry list.
pub struct JsonEnvelope {
    pub id: String,
    pub session_id: String,
    pub timestamp_ms: i64,
    pub msg_type: i32,
    pub payload: Vec<u8>,
    pub metadata: Vec<MetaEntry>,
}

pub struct JsonEnvelopeV {
    pub id: Seq<char>,
    pub session_id: Seq<char>,
    pub timestamp_ms: i64,
    pub msg_type: i32,
    pub payload: Seq<u8>,
    pub metadata: Seq<MetaEntryV>,
}

impl View for JsonEnvelope {
    type V = JsonEnvelopeV;

    open spec fn view(&self) -> JsonEnvelopeV {
        JsonEnvelopeV {
            id: self.id@,
            session_id: self.session_id@,
            timestamp_ms: self.timestamp_ms,
            msg_type: self.msg_type,
            payload: self.payload@,
            metadata: self.metadata@.map_values(|e: MetaEntry| e@),
        }
    }
}

pub open spec fn meta_strs(ms: Seq<MetaEntryV>) -> Seq<Seq<char>>
    decreases ms.len(),
{
    if ms.len() == 0 {
        seq![]
    } else {
        seq![ms[0].key, ms[0].value] + meta_strs(ms.drop_first())
    }
}

pub open spec fn meta_from(ss: Seq<Seq<char>>) -> Seq<MetaEntryV>
    decreases ss.len(),
{
    if ss.len() < 2 {
        seq![]
    } else {
        seq![MetaEntryV { key: ss[0], value: ss[1] }] + meta_from(ss.skip(2))
    }
}

proof fn lemma_meta_lens(ms: Seq<MetaEntryV>)
    ensures
        meta_strs(ms).len() == 2 * ms.len(),
    decreases ms.len(),
{
    if ms.len() > 0 {
        lemma_meta_lens(ms.drop_first());
    }
}

proof fn lemma_meta_round_trip(ms: Seq<MetaEntryV>)
    ensures
        meta_from(meta_strs(ms)) == ms,
    decreases ms.len(),
{
    lemma_meta_lens(ms);
    if ms.len() == 0 {
        assert(meta_from(meta_strs(ms)) =~= ms);
    } else {
        let rest = ms.drop_first();
        lemma_meta_lens(rest);
        assert(meta_strs(ms).skip(2) =~= meta_strs(rest));
        lemma_meta_round_trip(rest);
        assert(meta_from(meta_strs(ms)) =~= ms);
    }
}

proof fn lemma_meta_strs_at(ms: Seq<MetaEntryV>, j: int)
    requires
        0 <= j < ms.len(),
    ensures
        meta_strs(ms).len() == 2 * ms.len(),
        meta_strs(ms)[2 * j] == ms[j].key,
        meta_strs(ms)[2 * j + 1] == ms[j].value,
    decreases ms.len(),
{
    lemma_meta_lens(ms);
    if j > 0 {
        lemma_meta_strs_at(ms.drop_first(), j - 1);
        assert(ms.drop_first()[j - 1] == ms[j]);
        assert(meta_strs(ms)[2 * j] == meta_strs(ms.drop_first())[2 * (j - 1)]);
        assert(meta_strs(ms)[2 * j + 1] == meta_strs(ms.drop_first())[2 * (j - 1) + 1]);
    }
}

proof fn lemma_meta_from_index(ss: Seq<Seq<char>>, i: int)
    requires
        ss.len() % 2 == 0,
        0 <= i < ss.len() / 2,
    ensures
        meta_from(ss).len() == ss.len() / 2,
        meta_from(ss)[i] == (MetaEntryV { key: ss[2 * i], value: ss[2 * i + 1] }),
    decreases ss.len(),
{
    lemma_meta_from_len(ss);
    if i > 0 {
        lemma_meta_from_index(ss.skip(2), i - 1);
        assert(meta_from(ss)[i] == meta_from(ss.skip(2))[i - 1]);
        assert(ss.skip(2)[2 * (i - 1)] == ss[2 * i]);
        assert(ss.skip(2)[2 * (i - 1) + 1] == ss[2 * i + 1]);
    }
}

proof fn lemma_meta_from_len(ss: Seq<Seq<char>>)
    requires
        ss.len() % 2 == 0,
    ensures
        meta_from(ss).len() == ss.len() / 2,
    decreases ss.len(),
{
    if ss.len() >= 2 {
        lemma_meta_from_len(ss.skip(2));
    }
}

pub open spec fn json_env_fits(e: JsonEnvelopeV) -> bool {
    &&& e.id.len() <= u64::MAX
    &&& e.session_id.len() <= u64::MAX
    &&& e.payload.len() <= u64::MAX
    &&& 2 + 2 * e.metadata.len() <= u64::MAX
    &&& forall|i: int|
        0 <= i < e.metadata.len() ==> (#[trigger] e.metadata[i].key.len() <= u64::MAX
            && e.metadata[i].value.len() <= u64::MAX)
}

pub open spec fn spec_encode_json_envelope(e: JsonEnvelopeV) -> Seq<u8> {
    wr_parts(
        seq![e.timestamp_ms as u64, e.msg_type as u64],
        seq![e.id, e.session_id] + meta_strs(e.metadata),
        e.payload,
    )
}

pub open spec fn spec_decode_json_envelope(b: Seq<u8>) -> Option<JsonEnvelopeV> {
    match rd_frame(b) {
        Some((ns, ss, blob)) => {
            if ns.len() == 2 && ss.len() >= 2 && (ss.len() - 2) % 2 == 0 {
                Some(
                    JsonEnvelopeV {
                        id: ss[0],
                        session_id: ss[1],
                        timestamp_ms: ns[0] as i64,
                        msg_type: ns[1] as i32,
                        payload: blob,
                        metadata: meta_from(ss.skip(2)),
                    },
                )
            } else {
                None
            }
        },
        None => None,
    }
}

/// The session envelope's round trip.
pub proof fn lemma_json_envelope_round_trip(e: JsonEnvelopeV)
    requires
        json_env_fits(e),
    ensures
        spec_decode_json_envelope(spec_encode_json_envelope(e)) == Some(e),
{
    let ss = seq![e.id, e.session_id] + meta_strs(e.metadata);
    lemma_meta_lens(e.metadata);
    assert forall|i: int| 0 <= i < ss.len() implies #[trigger] ss[i].len() <= u64::MAX by {
        if i >= 2 {
            lemma_meta_strs_at(e.metadata, (i - 2) / 2);
            if (i - 2) % 2 == 0 {
                assert(ss[i] == meta_strs(e.metadata)[i - 2]);
                assert(i - 2 == 2 * ((i - 2) / 2));
            } else {
                assert(ss[i] == meta_strs(e.metadata)[i - 2]);
                assert(i - 2 == 2 * ((i - 2) / 2) + 1);
            }
        }
    }
    lemma_frame_round_trip(seq![e.timestamp_ms as u64, e.msg_type as u64], ss, e.payload);
    lemma_i64_cast(e.timestamp_ms);
    lemma_i32_cast(e.msg_type);
    assert(ss.skip(2) =~= meta_strs(e.metadata));
    lemma_meta_round_trip(e.metadata);
}

impl JsonEnvelope {
    /// Encodes this envelope to its wire bytes.
    pub fn encode_to_vec(&self) -> (r: Vec<u8>)
        ensures
            r@ == spec_encode_json_envelope(self@),
            json_env_fits(self@),
    {
        let mut nums: Vec<u64> = Vec::new();
        nums.push(self.timestamp_ms as u64);
        nums.push(self.msg_type as u64);
        let mut strs: Vec<String> = Vec::new();
        strs.push(self.id.clone());
        strs.push(self.session_id.clone());
        let n = self.metadata.len();
        let mut i: usize = 0;
        while i < n
            invariant
                i <= n,
                n == self.metadata@.len(),
                strs_view(strs@) == seq![self.id@, self.session_id@] + meta_strs(
                    self.metadata@.map_values(|e: MetaEntry| e@).take(i as int),
                ),
            decreases n - i,
        {
            let ghost strs_before = strs@;
            strs.push(self.metadata[i].key.clone());
            strs.push(self.metadata[i].value.clone());
            proof {
                let mv = self.metadata@.map_values(|e: MetaEntry| e@);
                assert(mv[i as int] == self.metadata@[i as int]@);
                lemma_meta_snoc(mv.take(i as int), mv[i as int]);
                assert(mv.take(i as int).push(mv[i as int]) =~= mv.take(i as int + 1));
                assert(strs_view(strs@) =~= strs_view(strs_before) + seq![
                    mv[i as int].key,
                    mv[i as int].value,
                ]);
                assert(strs_view(strs@) =~= seq![self.id@, self.session_id@] + meta_strs(
                    mv.take(i as int + 1),
                ));
            }
            i = i + 1;
        }
        let out = crate::wire::encode_frame(&nums, &strs, &self.payload);
        proof {
            let mv = self.metadata@.map_values(|e: MetaEntry| e@);
            assert(mv.take(n as int) =~= mv);
            assert(nums@ =~= seq![self.timestamp_ms as u64, self.msg_type as u64]);
            let full = strs_view(strs@);
            lemma_meta_lens(mv);
            assert forall|j: int| 0 <= j < mv.len() implies (#[trigger] mv[j].key.len()
                <= u64::MAX && mv[j].value.len() <= u64::MAX) by {
                lemma_meta_strs_at(mv, j);
                assert(full[2 + 2 * j] == meta_strs(mv)[2 * j]);
                assert(full[2 + 2 * j + 1] == meta_strs(mv)[2 * j + 1]);
                assert(full[2 + 2 * j].len() <= u64::MAX);
                assert(full[2 + 2 * j + 1].len() <= u64::MAX);
            }
            assert(full.len() == 2 + 2 * mv.len());
            assert(self.id@ == full[0] && self.session_id@ == full[1]);
            assert(self.id@.len() <= u64::MAX && self.session_id@.len() <= u64::MAX);
            assert(json_env_fits(self@));
        }
        out
    }

    /// Decodes wire bytes back into a session envelope; the error text
    /// names the failure.
    pub fn decode(b: &Vec<u8>) -> (r: Result<JsonEnvelope, String>)
        ensures
            match r {
                Ok(e) => spec_decode_json_envelope(b@) == Some(e@),
                Err(msg) => spec_decode_json_envelope(b@) is None && msg@
                    == "invalid envelope encoding"@,
            },
    {
        let parts = match crate::wire::decode_frame(b) {
            Some(p) => p,
            None => {
                return Err(String::from_str("invalid envelope encoding"));
            },
        };
        if parts.nums.len() != 2 || parts.strs.len() < 2 {
            return Err(String::from_str("invalid envelope encoding"));
        }
        let m2 = parts.strs.len() - 2;
        if m2 % 2 != 0 {
            return Err(String::from_str("invalid envelope encoding"));
        }
        let n = m2 / 2;
        let ghost sstr = strs_view(parts.strs@).skip(2);
        proof {
            lemma_meta_from_len(sstr);
        }
        let mut metadata: Vec<MetaEntry> = Vec::new();
        let mut i: usize = 0;
        let strs_len: usize = parts.strs.len();
        while i < n
            invariant
                i <= n,
                parts.strs@.len() == 2 + 2 * n,
                parts.strs@.len() == strs_len,
                sstr == strs_view(parts.strs@).skip(2),
                sstr.len() % 2 == 0,
                metadata@.map_values(|e: MetaEntry| e@) == meta_from(sstr).take(i as int),
                meta_from(sstr).len() == n,
            decreases n - i,
        {
            let ghost before = metadata@;
            let entry = MetaEntry {
                key: parts.strs[2 + 2 * i].clone(),
                value: parts.strs[3 + 2 * i].clone(),
            };
            metadata.push(entry);
            proof {
                lemma_meta_from_index(sstr, i as int);
                assert(sstr[2 * i as int] == parts.strs@[2 + 2 * i as int]@);
                assert(sstr[2 * i as int + 1] == parts.strs@[3 + 2 * i as int]@);
                assert(metadata@ == before.push(entry));
                assert(entry@ == meta_from(sstr)[i as int]);
                assert(metadata@.map_values(|e: MetaEntry| e@) =~= before.map_values(
                    |e: MetaEntry| e@,
                ).push(entry@));
                assert(meta_from(sstr).take(i as int + 1) =~= meta_from(sstr).take(
                    i as int,
                ).push(meta_from(sstr)[i as int]));
            }
            i = i + 1;
        }
        proof {
            assert(meta_from(sstr).take(n as int) =~= meta_from(sstr));
        }
        Ok(
            JsonEnvelope {
                id: parts.strs[0].clone(),
                session_id: parts.strs[1].clone(),
                timestamp_ms: parts.nums[0] as i64,
                msg_type: parts.nums[1] as i32,
                payload: parts.blob,
                metadata,
            },
        )
    }

    /// The first metadata value stored under a key, if any.
    pub fn meta_get(&self, key: &str) -> (r: Option<&String>)
        ensures
            match r {
                Some(v) => exists|j: int|
                    0 <= j < self.metadata@.len() && (#[trigger] self.metadata@[j]@).key == key@
                        && self.metadata@[j]@.value == v@,
                None => forall|j: int|
                    0 <= j < self.metadata@.len() ==> (#[trigger] self.metadata@[j]@).key != key@,
            },
    {
        let k = String::from_str(key);
        let n = self.metadata.len();
        let mut i: usize = 0;
        while i < n
            invariant
                i <= n,
                n == self.metadata@.len(),
                k@ == key@,
                forall|j: int| 0 <= j < i ==> (#[trigger] self.metadata@[j]@).key != key@,
            decreases n - i,
        {
            if self.metadata[i].key == k {
                proof {
                    assert((self.metadata@[i as int]@).key == key@);
                }
                return Some(&self.metadata[i].value);
            }
            i = i + 1;
        }
        None
    }
}

proof fn lemma_meta_snoc(ms: Seq<MetaEntryV>, m: MetaEntryV)
    ensures
        meta_strs(ms.push(m)) == meta_strs(ms) + seq![m.key, m.value],
    decreases ms.len(),
{
    if ms.len() == 0 {
        assert(ms.push(m)[0] == m);
        assert(ms.push(m).drop_first() =~= ms);
        assert(meta_strs(ms) == Seq::<Seq<char>>::empty());
        assert(meta_strs(ms.push(m)) =~= meta_strs(ms) + seq![m.key, m.value]);
    } else {
        assert(ms.push(m)[0] == ms[0]);
        assert(ms.push(m).drop_first() =~= ms.drop_first().push(m));
        lemma_meta_snoc(ms.drop_first(), m);
        assert(meta_strs(ms.push(m)) =~= meta_strs(ms) + seq![m.key, m.value]);
    }
}

/// Builds a heartbeat session envelope: empty payload, empty metadata, a
/// fresh id, the current time.
pub fn heartbeat_envelope(session_id: &str) -> (r: JsonEnvelope)
    ensures
        r.session_id@ == session_id@,
        r.msg_type == MessageType::Heartbeat.spec_tag(),
        r.payload@ == Seq::<u8>::empty(),
        r.metadata@.len() == 0,
        r.id@.len() == 36,
        r.timestamp_ms >= 0,
{
    JsonEnvelope {
        id: crate::sys::new_uuid(),
        session_id: session_id.to_owned(),
        timestamp_ms: crate::sys::now_ms(),
        msg_type: MessageType::Heartbeat.tag(),
        payload: Vec::new(),
        metadata: Vec::new(),
    }
}

/// Builds the auth-response session envelope, carrying the token and the
/// device id in its metadata.
pub fn auth_response_envelope(session_id: &str, jwt_token: &str, device_id: &str) -> (r:
    JsonEnvelope)
    ensures
        r.session_id@ == session_id@,
        r.msg_type == MessageType::AuthResponse.spec_tag(),
        r.payload@ == Seq::<u8>::empty(),
        r.metadata@.map_values(|e: MetaEntry| e@) == seq![
            MetaEntryV { key: "jwt_token"@, value: jwt_token@ },
            MetaEntryV { key: "device_id"@, value: device_id@ },
        ],
        r.id@.len() == 36,
        r.timestamp_ms >= 0,
{
    let mut metadata: Vec<MetaEntry> = Vec::new();
    metadata.push(
        MetaEntry { key: String::from_str("jwt_token"), value: jwt_token.to_owned() },
    );
    metadata.push(
        MetaEntry { key: String::from_str("device_id"), value: device_id.to_owned() },
    );
    let r = JsonEnvelope {
        id: crate::sys::new_uuid(),
        session_id: session_id.to_owned(),
        timestamp_ms: crate::sys::now_ms(),
        msg_type: MessageType::AuthResponse.tag(),
        payload: Vec::new(),
        metadata,
    };
    proof {
        assert(r.metadata@.map_values(|e: MetaEntry| e@) =~= seq![
            MetaEntryV { key: "jwt_token"@, value: jwt_token@ },
            MetaEntryV { key: "device_id"@, value: device_id@ },
        ]);
    }
    r
}

/// Serializes a session envelope to bytes.
pub fn encode_envelope(env: &JsonEnvelope) -> (r: Vec<u8>)
    ensures
        r@ == spec_encode_json_envelope(env@),
{
    env.encode_to_vec()
}

/// Deserializes a session envelope from bytes.
pub fn decode_envelope(bytes: &Vec<u8>) -> (r: Result<JsonEnvelope, String>)
    ensures
        match r {
            Ok(e) => spec_decode_json_envelope(bytes@) == Some(e@),
            Err(msg) => spec_decode_json_envelope(bytes@) is None,
        },
{
    JsonEnvelope::decode(bytes)
}

/// Builds the heartbeat the daemon sends upstream every interval.
pub fn build_heartbeat(session_id: &str) -> (r: JsonEnvelope)
    ensures
        r.session_id@ == session_id@,
        r.msg_type == MessageType::Heartbeat.spec_tag(),
        r.payload@ == Seq::<u8>::empty(),
{
    heartbeat_envelope(session_id)
}

/// What the daemon's main loop does with one inbound session envelope.
#[derive(Clone, Copy, PartialEq, Eq, Structural, Debug)]
pub enum DispatchOutcome {
    /// A heartbeat acknowledgement: noted, nothing else.
    HeartbeatAck,
    /// A command request: audited, execution handed to the executor path.
    CommandRequest,
    /// Any other type: ignored.
    Ignored,
}

/// Dispatches one inbound session envelope by its type tag.
pub fn dispatch_message(envelope: &JsonEnvelope) -> (r: DispatchOutcome)
    ensures
        envelope.msg_type == MessageType::Heartbeat.spec_tag() ==> r
            == DispatchOutcome::HeartbeatAck,
        envelope.msg_type == MessageType::CommandRequest.spec_tag() ==> r
            == DispatchOutcome::CommandRequest,
        envelope.msg_type != MessageType::Heartbeat.spec_tag() && envelope.msg_type
            != MessageType::CommandRequest.spec_tag() ==> r == DispatchOutcome::Ignored,
{
    if envelope.msg_type == MessageType::Heartbeat.tag() {
        DispatchOutcome::HeartbeatAck
    } else if envelope.msg_type == MessageType::CommandRequest.tag() {
        DispatchOutcome::CommandRequest
    } else {
        DispatchOutcome::Ignored
    }
}

} // verus!
