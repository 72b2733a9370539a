//! The local protocol: envelopes exchanged between the daemon and local
//! clients over the loopback WebSocket. Each envelope carries a version, a
//! message id, a timestamp, and one payload of a closed set of message
//! types; the codec lowers an envelope to a wire frame and restores it.

use vstd::prelude::*;
use vstd::string::*;
use crate::wire::{wr_parts, rd_frame, lemma_frame_round_trip, strs_view};

verus! {

/// Error codes carried by `error` envelopes.
#[derive(Clone, Copy, PartialEq, Eq, Structural, Debug)]
pub enum ErrorCode {
    ProtocolVersionMismatch,
    ProtocolError,
}

impl ErrorCode {
    pub open spec fn spec_code_str(self) -> Seq<char> {
        match self {
            ErrorCode::ProtocolVersionMismatch => "PROTOCOL_VERSION_MISMATCH"@,
            ErrorCode::ProtocolError => "PROTOCOL_ERROR"@,
        }
    }

    /// The code's wire name.
    pub fn code_str(&self) -> (r: String)
        ensures
            r@ == self.spec_code_str(),
    {
        match self {
            ErrorCode::ProtocolVersionMismatch => String::from_str("PROTOCOL_VERSION_MISMATCH"),
            ErrorCode::ProtocolError => String::from_str("PROTOCOL_ERROR"),
        }
    }
}

/// The closed union of local message payloads, both directions.
pub enum LocalPayload {
    /// Client ping; daemon answers with `Pong`.
    Heartbeat,
    /// Daemon's heartbeat reply.
    Pong,
    /// Client submits a task.
    TaskSubmit { task_id: String, input: String, context: String },
    /// Client answers a proposed plan.
    PlanApprove { task_id: String, plan_id: String, action: String, modifications: Option<String> },
    /// Client answers a permission request.
    PermissionResponse { task_id: String, permission_id: String, granted: bool },
    /// Client asks for recent tasks.
    TasksList { task_id: Option<String>, limit: u32 },
    /// Client cancels a task.
    TaskCancel { task_id: String },
    /// Daemon's connection snapshot, pushed on connect.
    DaemonStatus {
        daemon_version: String,
        protocol_version: u32,
        orchestrator_connected: bool,
        orchestrator_url: String,
        active_tasks: u64,
        device_id: String,
    },
    /// A routed orchestrator event, pushed to a subscriber; the event type
    /// names it (`plan.proposed`, `step.started`, ...), the body carries
    /// the event's own payload text.
    Event { event_type: String, body: String },
    /// Protocol error reply; the connection stays open.
    Error { code: ErrorCode, message: String, request_id: Option<String> },
}

/// Mathematical model of a payload: the same shape over character
/// sequences.
pub enum LocalPayloadV {
    Heartbeat,
    Pong,
    TaskSubmit { task_id: Seq<char>, input: Seq<char>, context: Seq<char> },
    PlanApprove {
        task_id: Seq<char>,
        plan_id: Seq<char>,
        action: Seq<char>,
        modifications: Option<Seq<char>>,
    },
    PermissionResponse { task_id: Seq<char>, permission_id: Seq<char>, granted: bool },
    TasksList { task_id: Option<Seq<char>>, limit: u32 },
    TaskCancel { task_id: Seq<char> },
    DaemonStatus {
        daemon_version: Seq<char>,
        protocol_version: u32,
        orchestrator_connected: bool,
        orchestrator_url: Seq<char>,
        active_tasks: u64,
        device_id: Seq<char>,
    },
    Event { event_type: Seq<char>, body: Seq<char> },
    Error { code: ErrorCode, message: Seq<char>, request_id: Option<Seq<char>> },
}

pub open spec fn opt_view(o: Option<String>) -> Option<Seq<char>> {
    match o {
        Some(s) => Some(s@),
        None => None,
    }
}

impl View for LocalPayload {
    type V = LocalPayloadV;

    open spec fn view(&self) -> LocalPayloadV {
        match self {
            LocalPayload::Heartbeat => LocalPayloadV::Heartbeat,
            LocalPayload::Pong => LocalPayloadV::Pong,
            LocalPayload::TaskSubmit { task_id, input, context } => LocalPayloadV::TaskSubmit {
                task_id: task_id@,
                input: input@,
                context: context@,
            },
            LocalPayload::PlanApprove { task_id, plan_id, action, modifications } => {
                LocalPayloadV::PlanApprove {
                    task_id: task_id@,
                    plan_id: plan_id@,
                    action: action@,
                    modifications: opt_view(*modifications),
                }
            },
            LocalPayload::PermissionResponse { task_id, permission_id, granted } => {
                LocalPayloadV::PermissionResponse {
                    task_id: task_id@,
                    permission_id: permission_id@,
                    granted: *granted,
                }
            },
            LocalPayload::TasksList { task_id, limit } => LocalPayloadV::TasksList {
                task_id: opt_view(*task_id),
                limit: *limit,
            },
            LocalPayload::TaskCancel { task_id } => LocalPayloadV::TaskCancel {
                task_id: task_id@,
            },
            LocalPayload::DaemonStatus {
                daemon_version,
                protocol_version,
                orchestrator_connected,
                orchestrator_url,
                active_tasks,
                device_id,
            } => LocalPayloadV::DaemonStatus {
                daemon_version: daemon_version@,
                protocol_version: *protocol_version,
                orchestrator_connected: *orchestrator_connected,
                orchestrator_url: orchestrator_url@,
                active_tasks: *active_tasks,
                device_id: device_id@,
            },
            LocalPayload::Event { event_type, body } => LocalPayloadV::Event {
                event_type: event_type@,
                body: body@,
            },
            LocalPayload::Error { code, message, request_id } => LocalPayloadV::Error {
                code: *code,
                message: message@,
                request_id: opt_view(*request_id),
            },
        }
    }
}

/// One envelope of the local protocol.
pub struct LocalEnvelope {
    pub v: u32,
    pub id: String,
    pub ts: i64,
    pub payload: LocalPayload,
}

/// Inbound envelopes (client to daemon) and outbound envelopes (daemon to
/// client) share one shape.
pub type ClientEnvelope = LocalEnvelope;

pub type DaemonEnvelope = LocalEnvelope;

pub struct LocalEnvelopeV {
    pub v: u32,
    pub id: Seq<char>,
    pub ts: i64,
    pub payload: LocalPayloadV,
}

impl View for LocalEnvelope {
    type V = LocalEnvelopeV;

    open spec fn view(&self) -> LocalEnvelopeV {
        LocalEnvelopeV { v: self.v, id: self.id@, ts: self.ts, payload: self.payload@ }
    }
}

// ───────────────────────── parts lowering (spec) ─────────────────────────

pub open spec fn payload_tag(p: LocalPayloadV) -> u64 {
    match p {
        LocalPayloadV::Heartbeat => 1,
        LocalPayloadV::Pong => 2,
        LocalPayloadV::TaskSubmit { .. } => 3,
        LocalPayloadV::PlanApprove { .. } => 4,
        LocalPayloadV::PermissionResponse { .. } => 5,
        LocalPayloadV::TasksList { .. } => 6,
        LocalPayloadV::TaskCancel { .. } => 7,
        LocalPayloadV::DaemonStatus { .. } => 8,
        LocalPayloadV::Event { .. } => 9,
        LocalPayloadV::Error { .. } => 10,
    }
}

pub open spec fn code_num(c: ErrorCode) -> u64 {
    match c {
        ErrorCode::ProtocolVersionMismatch => 1,
        ErrorCode::ProtocolError => 2,
    }
}

pub open spec fn bool_num(b: bool) -> u64 {
    if b {
        1
    } else {
        0
    }
}

pub open spec fn payload_nums(p: LocalPayloadV) -> Seq<u64> {
    match p {
        LocalPayloadV::Heartbeat => seq![],
        LocalPayloadV::Pong => seq![],
        LocalPayloadV::TaskSubmit { .. } => seq![],
        LocalPayloadV::PlanApprove { modifications, .. } => seq![
            bool_num(modifications is Some),
        ],
        LocalPayloadV::PermissionResponse { granted, .. } => seq![bool_num(granted)],
        LocalPayloadV::TasksList { task_id, limit } => seq![
            bool_num(task_id is Some),
            limit as u64,
        ],
        LocalPayloadV::TaskCancel { .. } => seq![],
        LocalPayloadV::DaemonStatus {
            protocol_version,
            orchestrator_connected,
            active_tasks,
            ..
        } => seq![protocol_version as u64, bool_num(orchestrator_connected), active_tasks],
        LocalPayloadV::Event { .. } => seq![],
        LocalPayloadV::Error { code, request_id, .. } => seq![
            code_num(code),
            bool_num(request_id is Some),
        ],
    }
}

pub open spec fn opt_strs(o: Option<Seq<char>>) -> Seq<Seq<char>> {
    match o {
        Some(s) => seq![s],
        None => seq![],
    }
}

pub open spec fn payload_strs(p: LocalPayloadV) -> Seq<Seq<char>> {
    match p {
        LocalPayloadV::Heartbeat => seq![],
        LocalPayloadV::Pong => seq![],
        LocalPayloadV::TaskSubmit { task_id, input, context } => seq![task_id, input, context],
        LocalPayloadV::PlanApprove { task_id, plan_id, action, modifications } => seq![
            task_id,
            plan_id,
            action,
        ] + opt_strs(modifications),
        LocalPayloadV::PermissionResponse { task_id, permission_id, .. } => seq![
            task_id,
            permission_id,
        ],
        LocalPayloadV::TasksList { task_id, .. } => opt_strs(task_id),
        LocalPayloadV::TaskCancel { task_id } => seq![task_id],
        LocalPayloadV::DaemonStatus { daemon_version, orchestrator_url, device_id, .. } => seq![
            daemon_version,
            orchestrator_url,
            device_id,
        ],
        LocalPayloadV::Event { event_type, body } => seq![event_type, body],
        LocalPayloadV::Error { message, request_id, .. } => seq![message] + opt_strs(request_id),
    }
}

pub open spec fn env_nums(e: LocalEnvelopeV) -> Seq<u64> {
    seq![e.v as u64, e.ts as u64, payload_tag(e.payload)] + payload_nums(e.payload)
}

pub open spec fn env_strs(e: LocalEnvelopeV) -> Seq<Seq<char>> {
    seq![e.id] + payload_strs(e.payload)
}

/// What encoding a local envelope writes.
pub open spec fn spec_encode_local(e: LocalEnvelopeV) -> Seq<u8> {
    wr_parts(env_nums(e), env_strs(e), Seq::empty())
}

// ───────────────────────── parts raising (spec) ─────────────────────────

pub open spec fn payload_from_parts(tag: u64, ns: Seq<u64>, ss: Seq<Seq<char>>) -> Option<
    LocalPayloadV,
> {
    if tag == 1 && ns.len() == 0 && ss.len() == 0 {
        Some(LocalPayloadV::Heartbeat)
    } else if tag == 2 && ns.len() == 0 && ss.len() == 0 {
        Some(LocalPayloadV::Pong)
    } else if tag == 3 && ns.len() == 0 && ss.len() == 3 {
        Some(LocalPayloadV::TaskSubmit { task_id: ss[0], input: ss[1], context: ss[2] })
    } else if tag == 4 && ns.len() == 1 && (ns[0] == 0 || ns[0] == 1) && ss.len() == 3 + ns[0] {
        Some(
            LocalPayloadV::PlanApprove {
                task_id: ss[0],
                plan_id: ss[1],
                action: ss[2],
                modifications: if ns[0] == 1 {
                    Some(ss[3])
                } else {
                    None
                },
            },
        )
    } else if tag == 5 && ns.len() == 1 && (ns[0] == 0 || ns[0] == 1) && ss.len() == 2 {
        Some(
            LocalPayloadV::PermissionResponse {
                task_id: ss[0],
                permission_id: ss[1],
                granted: ns[0] == 1,
            },
        )
    } else if tag == 6 && ns.len() == 2 && (ns[0] == 0 || ns[0] == 1) && ns[1] <= u32::MAX
        && ss.len() == ns[0] {
        Some(
            LocalPayloadV::TasksList {
                task_id: if ns[0] == 1 {
                    Some(ss[0])
                } else {
                    None
                },
                limit: ns[1] as u32,
            },
        )
    } else if tag == 7 && ns.len() == 0 && ss.len() == 1 {
        Some(LocalPayloadV::TaskCancel { task_id: ss[0] })
    } else if tag == 8 && ns.len() == 3 && ns[0] <= u32::MAX && (ns[1] == 0 || ns[1] == 1)
        && ss.len() == 3 {
        Some(
            LocalPayloadV::DaemonStatus {
                daemon_version: ss[0],
                protocol_version: ns[0] as u32,
                orchestrator_connected: ns[1] == 1,
                orchestrator_url: ss[1],
                active_tasks: ns[2],
                device_id: ss[2],
            },
        )
    } else if tag == 9 && ns.len() == 0 && ss.len() == 2 {
        Some(LocalPayloadV::Event { event_type: ss[0], body: ss[1] })
    } else if tag == 10 && ns.len() == 2 && (ns[0] == 1 || ns[0] == 2) && (ns[1] == 0 || ns[1]
        == 1) && ss.len() == 1 + ns[1] {
        Some(
            LocalPayloadV::Error {
                code: if ns[0] == 1 {
                    ErrorCode::ProtocolVersionMismatch
                } else {
                    ErrorCode::ProtocolError
                },
                message: ss[0],
                request_id: if ns[1] == 1 {
                    Some(ss[1])
                } else {
                    None
                },
            },
        )
    } else {
        None
    }
}

pub open spec fn env_from_parts(ns: Seq<u64>, ss: Seq<Seq<char>>, blob: Seq<u8>) -> Option<
    LocalEnvelopeV,
> {
    if ns.len() >= 3 && ss.len() >= 1 && blob.len() == 0 && ns[0] <= u32::MAX {
        match payload_from_parts(ns[2], ns.skip(3), ss.skip(1)) {
            Some(p) => Some(
                LocalEnvelopeV { v: ns[0] as u32, id: ss[0], ts: ns[1] as i64, payload: p },
            ),
            None => None,
        }
    } else {
        None
    }
}

/// What decoding yields for any byte sequence.
pub open spec fn spec_decode_local(b: Seq<u8>) -> Option<LocalEnvelopeV> {
    match rd_frame(b) {
        Some((ns, ss, blob)) => env_from_parts(ns, ss, blob),
        None => None,
    }
}

/// Machine limit: every string in the envelope fits a u64 length field.
pub open spec fn local_env_fits(e: LocalEnvelopeV) -> bool {
    forall|i: int| 0 <= i < env_strs(e).len() ==> #[trigger] env_strs(e)[i].len() <= u64::MAX
}

proof fn lemma_u64_i64_cast(x: i64)
    ensures
        ((x as u64) as i64) == x,
{
    assert(((x as u64) as i64) == x) by (bit_vector);
}

/// The local codec's round trip: decoding an encoded envelope restores it.
pub proof fn lemma_local_round_trip(e: LocalEnvelopeV)
    requires
        local_env_fits(e),
    ensures
        spec_decode_local(spec_encode_local(e)) == Some(e),
{
    let ns = env_nums(e);
    let ss = env_strs(e);
    assert(payload_nums(e.payload).len() <= 3);
    lemma_frame_round_trip(ns, ss, Seq::empty());
    lemma_u64_i64_cast(e.ts);
    assert(ns.skip(3) =~= payload_nums(e.payload));
    assert(ss.skip(1) =~= payload_strs(e.payload));
    lemma_payload_round_trip(e.payload);
    assert(env_from_parts(ns, ss, Seq::empty()) == Some(e));
}

// ───────────────────────── exec codec ─────────────────────────

fn push_payload_parts(p: &LocalPayload, nums: &mut Vec<u64>, strs: &mut Vec<String>)
    ensures
        final(nums)@ == old(nums)@ + seq![payload_tag(p@)] + payload_nums(p@),
        strs_view(final(strs)@) == strs_view(old(strs)@) + payload_strs(p@),
{
    match p {
        LocalPayload::Heartbeat => {
            nums.push(1);
        },
        LocalPayload::Pong => {
            nums.push(2);
        },
        LocalPayload::TaskSubmit { task_id, input, context } => {
            nums.push(3);
            strs.push(task_id.clone());
            strs.push(input.clone());
            strs.push(context.clone());
        },
        LocalPayload::PlanApprove { task_id, plan_id, action, modifications } => {
            nums.push(4);
            strs.push(task_id.clone());
            strs.push(plan_id.clone());
            strs.push(action.clone());
            match modifications {
                Some(m) => {
                    nums.push(1);
                    strs.push(m.clone());
                },
                None => {
                    nums.push(0);
                },
            }
        },
        LocalPayload::PermissionResponse { task_id, permission_id, granted } => {
            nums.push(5);
            nums.push(if *granted { 1 } else { 0 });
            strs.push(task_id.clone());
            strs.push(permission_id.clone());
        },
        LocalPayload::TasksList { task_id, limit } => {
            nums.push(6);
            match task_id {
                Some(t) => {
                    nums.push(1);
                    nums.push(*limit as u64);
                    strs.push(t.clone());
                },
                None => {
                    nums.push(0);
                    nums.push(*limit as u64);
                },
            }
        },
        LocalPayload::TaskCancel { task_id } => {
            nums.push(7);
            strs.push(task_id.clone());
        },
        LocalPayload::DaemonStatus {
            daemon_version,
            protocol_version,
            orchestrator_connected,
            orchestrator_url,
            active_tasks,
            device_id,
        } => {
            nums.push(8);
            nums.push(*protocol_version as u64);
            nums.push(if *orchestrator_connected { 1 } else { 0 });
            nums.push(*active_tasks);
            strs.push(daemon_version.clone());
            strs.push(orchestrator_url.clone());
            strs.push(device_id.clone());
        },
        LocalPayload::Event { event_type, body } => {
            nums.push(9);
            strs.push(event_type.clone());
            strs.push(body.clone());
        },
        LocalPayload::Error { code, message, request_id } => {
            nums.push(10);
            nums.push(match code {
                ErrorCode::ProtocolVersionMismatch => 1,
                ErrorCode::ProtocolError => 2,
            });
            strs.push(message.clone());
            match request_id {
                Some(rid) => {
                    nums.push(1);
                    strs.push(rid.clone());
                },
                None => {
                    nums.push(0);
                },
            }
        },
    }
    proof {
        assert(nums@ =~= old(nums)@ + seq![payload_tag(p@)] + payload_nums(p@));
        assert(strs_view(strs@) =~= strs_view(old(strs)@) + payload_strs(p@));
    }
}

/// Encodes a local envelope into its wire bytes.
pub fn encode_local_envelope(e: &LocalEnvelope) -> (r: Vec<u8>)
    ensures
        r@ == spec_encode_local(e@),
        local_env_fits(e@),
{
    let mut nums: Vec<u64> = Vec::new();
    let mut strs: Vec<String> = Vec::new();
    nums.push(e.v as u64);
    nums.push(e.ts as u64);
    strs.push(e.id.clone());
    push_payload_parts(&e.payload, &mut nums, &mut strs);
    let blob: Vec<u8> = Vec::new();
    let out = crate::wire::encode_frame(&nums, &strs, &blob);
    proof {
        assert(nums@ =~= env_nums(e@));
        assert(strs_view(strs@) =~= env_strs(e@));
        assert(blob@ =~= Seq::<u8>::empty());
    }
    out
}

fn decode_payload(tag: u64, nums: &Vec<u64>, strs: &Vec<String>) -> (r: Option<LocalPayload>)
    requires
        nums@.len() >= 3,
        strs@.len() >= 1,
    ensures
        match r {
            Some(p) => payload_from_parts(tag, nums@.skip(3), strs_view(strs@).skip(1)) == Some(
                p@,
            ),
            None => payload_from_parts(tag, nums@.skip(3), strs_view(strs@).skip(1)) is None,
        },
{
    let np: usize = nums.len() - 3;
    let sp: usize = strs.len() - 1;
    let ghost ns = nums@.skip(3);
    let ghost ss = strs_view(strs@).skip(1);
    proof {
        assert(ns.len() == np);
        assert(ss.len() == sp);
        assert(forall|i: int| 0 <= i < np ==> ns[i] == nums@[3 + i]);
        assert(forall|i: int| 0 <= i < sp ==> ss[i] == strs@[1 + i]@);
    }
    if tag == 1 && np == 0 && sp == 0 {
        Some(LocalPayload::Heartbeat)
    } else if tag == 2 && np == 0 && sp == 0 {
        Some(LocalPayload::Pong)
    } else if tag == 3 && np == 0 && sp == 3 {
        Some(
            LocalPayload::TaskSubmit {
                task_id: strs[1].clone(),
                input: strs[2].clone(),
                context: strs[3].clone(),
            },
        )
    } else if tag == 4 && np == 1 && (nums[3] == 0 || nums[3] == 1) && sp as u64 == 3 + nums[3] {
        Some(
            LocalPayload::PlanApprove {
                task_id: strs[1].clone(),
                plan_id: strs[2].clone(),
                action: strs[3].clone(),
                modifications: if nums[3] == 1 {
                    Some(strs[4].clone())
                } else {
                    None
                },
            },
        )
    } else if tag == 5 && np == 1 && (nums[3] == 0 || nums[3] == 1) && sp == 2 {
        Some(
            LocalPayload::PermissionResponse {
                task_id: strs[1].clone(),
                permission_id: strs[2].clone(),
                granted: nums[3] == 1,
            },
        )
    } else if tag == 6 && np == 2 && (nums[3] == 0 || nums[3] == 1) && nums[4] <= 0xFFFF_FFFF
        && sp as u64 == nums[3] {
        Some(
            LocalPayload::TasksList {
                task_id: if nums[3] == 1 {
                    Some(strs[1].clone())
                } else {
                    None
                },
                limit: nums[4] as u32,
            },
        )
    } else if tag == 7 && np == 0 && sp == 1 {
        Some(LocalPayload::TaskCancel { task_id: strs[1].clone() })
    } else if tag == 8 && np == 3 && nums[3] <= 0xFFFF_FFFF && (nums[4] == 0 || nums[4] == 1)
        && sp == 3 {
        Some(
            LocalPayload::DaemonStatus {
                daemon_version: strs[1].clone(),
                protocol_version: nums[3] as u32,
                orchestrator_connected: nums[4] == 1,
                orchestrator_url: strs[2].clone(),
                active_tasks: nums[5],
                device_id: strs[3].clone(),
            },
        )
    } else if tag == 9 && np == 0 && sp == 2 {
        Some(LocalPayload::Event { event_type: strs[1].clone(), body: strs[2].clone() })
    } else if tag == 10 && np == 2 && (nums[3] == 1 || nums[3] == 2) && (nums[4] == 0 || nums[4]
        == 1) && sp as u64 == 1 + nums[4] {
        Some(
            LocalPayload::Error {
                code: if nums[3] == 1 {
                    ErrorCode::ProtocolVersionMismatch
                } else {
                    ErrorCode::ProtocolError
                },
                message: strs[1].clone(),
                request_id: if nums[4] == 1 {
                    Some(strs[2].clone())
                } else {
                    None
                },
            },
        )
    } else {
        None
    }
}

/// Decodes wire bytes back into a local envelope; `None` is a malformed or
/// unrecognized frame.
pub fn decode_local_envelope(b: &Vec<u8>) -> (r: Option<LocalEnvelope>)
    ensures
        match r {
            Some(e) => spec_decode_local(b@) == Some(e@),
            None => spec_decode_local(b@) is None,
        },
{
    let parts = match crate::wire::decode_frame(b) {
        Some(p) => p,
        None => {
            return None;
        },
    };
    if parts.nums.len() < 3 || parts.strs.len() < 1 || parts.blob.len() != 0 {
        return None;
    }
    let v64 = parts.nums[0];
    if v64 > 0xFFFF_FFFF {
        return None;
    }
    let tag = parts.nums[2];
    match decode_payload(tag, &parts.nums, &parts.strs) {
        Some(payload) => Some(
            LocalEnvelope {
                v: v64 as u32,
                id: parts.strs[0].clone(),
                ts: parts.nums[1] as i64,
                payload,
            },
        ),
        None => None,
    }
}

// ───────────────────────── constructors ─────────────────────────

impl LocalEnvelope {
    /// A fresh outbound envelope around the given payload, carrying the
    /// daemon's protocol version, a new id and the current time.
    pub fn new(payload: LocalPayload) -> (r: Self)
        ensures
            r.v == crate::PROTOCOL_VERSION,
            r.payload == payload,
            r.id@.len() == 36,
            r.ts >= 0,
    {
        LocalEnvelope {
            v: crate::PROTOCOL_VERSION,
            id: crate::sys::new_uuid(),
            ts: crate::sys::now_ms(),
            payload,
        }
    }

    /// An `error` envelope; the connection it is sent on stays open.
    pub fn error(code: ErrorCode, message: String, request_id: Option<String>) -> (r: Self)
        ensures
            r.v == crate::PROTOCOL_VERSION,
            r.payload@ == (LocalPayloadV::Error {
                code,
                message: message@,
                request_id: opt_view(request_id),
            }),
    {
        Self::new(LocalPayload::Error { code, message, request_id })
    }

    /// The daemon's reply to a client heartbeat.
    pub fn heartbeat_pong() -> (r: Self)
        ensures
            r.v == crate::PROTOCOL_VERSION,
            r.payload@ == LocalPayloadV::Pong,
    {
        Self::new(LocalPayload::Pong)
    }

    /// The status snapshot pushed to every newly connected client.
    pub fn daemon_status(
        version: &str,
        orchestrator_connected: bool,
        active_tasks: u64,
        orchestrator_url: &str,
        device_id: &str,
    ) -> (r: Self)
        ensures
            r.v == crate::PROTOCOL_VERSION,
            r.payload@ == (LocalPayloadV::DaemonStatus {
                daemon_version: version@,
                protocol_version: crate::PROTOCOL_VERSION,
                orchestrator_connected,
                orchestrator_url: orchestrator_url@,
                active_tasks,
                device_id: device_id@,
            }),
    {
        Self::new(
            LocalPayload::DaemonStatus {
                daemon_version: version.to_owned(),
                protocol_version: crate::PROTOCOL_VERSION,
                orchestrator_connected,
                orchestrator_url: orchestrator_url.to_owned(),
                active_tasks,
                device_id: device_id.to_owned(),
            },
        )
    }

    /// The wire name of this envelope's message type.
    pub fn msg_type(&self) -> (r: String)
        ensures
            r@ == spec_msg_type(self.payload@),
    {
        match &self.payload {
            LocalPayload::Heartbeat => String::from_str("heartbeat"),
            LocalPayload::Pong => String::from_str("heartbeat"),
            LocalPayload::TaskSubmit { .. } => String::from_str("task.submit"),
            LocalPayload::PlanApprove { .. } => String::from_str("plan.approve"),
            LocalPayload::PermissionResponse { .. } => String::from_str("permission.response"),
            LocalPayload::TasksList { .. } => String::from_str("tasks.list"),
            LocalPayload::TaskCancel { .. } => String::from_str("task.cancel"),
            LocalPayload::DaemonStatus { .. } => String::from_str("daemon.status"),
            LocalPayload::Event { event_type, .. } => event_type.clone(),
            LocalPayload::Error { .. } => String::from_str("error"),
        }
    }
}

/// The wire name of each message type; routed events carry their own.
pub open spec fn spec_msg_type(p: LocalPayloadV) -> Seq<char> {
    match p {
        LocalPayloadV::Heartbeat => "heartbeat"@,
        LocalPayloadV::Pong => "heartbeat"@,
        LocalPayloadV::TaskSubmit { .. } => "task.submit"@,
        LocalPayloadV::PlanApprove { .. } => "plan.approve"@,
        LocalPayloadV::PermissionResponse { .. } => "permission.response"@,
        LocalPayloadV::TasksList { .. } => "tasks.list"@,
        LocalPayloadV::TaskCancel { .. } => "task.cancel"@,
        LocalPayloadV::DaemonStatus { .. } => "daemon.status"@,
        LocalPayloadV::Event { event_type, .. } => event_type,
        LocalPayloadV::Error { .. } => "error"@,
    }
}

proof fn lemma_payload_round_trip(p: LocalPayloadV)
    ensures
        payload_from_parts(payload_tag(p), payload_nums(p), payload_strs(p)) == Some(p),
{
    match p {
        LocalPayloadV::PlanApprove { modifications, .. } => {
            match modifications {
                Some(m) => {
                    assert(payload_strs(p).len() == 4);
                },
                None => {
                    assert(payload_strs(p).len() == 3);
                },
            }
        },
        LocalPayloadV::TasksList { task_id, .. } => {
            match task_id {
                Some(t) => {
                    assert(payload_strs(p).len() == 1);
                },
                None => {
                    assert(payload_strs(p).len() == 0);
                },
            }
        },
        LocalPayloadV::Error { request_id, .. } => {
            match request_id {
                Some(t) => {
                    assert(payload_strs(p).len() == 2);
                },
                None => {
                    assert(payload_strs(p).len() == 1);
                },
            }
        },
        _ => {},
    }
}

} // verus!
