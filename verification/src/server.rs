//! The local client server's message logic: what one inbound client
//! envelope does to the shared state, what is replied on the connection,
//! and what is forwarded upstream. The socket loop around it only decodes
//! bytes, calls this, and performs the returned actions.

use vstd::prelude::*;
use vstd::string::*;
use crate::protocol::{LocalEnvelope, LocalPayload, LocalPayloadV, ErrorCode, spec_msg_type};
use crate::router::{SubscriberRegistry, has_sub, sub_conn};
use crate::store::{TaskStore, has_task, fresh_task};
use crate::text::dec_digits;
use crate::PROTOCOL_VERSION;

verus! {

/// Shared state across all client connections.
pub struct ServerState {
    /// Which local connection receives events for each task id.
    pub task_subs: SubscriberRegistry,
    /// The durable task store.
    pub store: TaskStore,
    /// The daemon's version string.
    pub version: String,
    /// Whether the orchestrator link is currently up.
    pub orch_connected: bool,
    /// The orchestrator URL, reported in status snapshots.
    pub orchestrator_url: String,
    /// The device id, reported in status snapshots.
    pub device_id: String,
}

impl ServerState {
    pub open spec fn wf(self) -> bool {
        &&& self.task_subs.wf()
        &&& self.store.wf()
    }

    pub fn new(
        store: TaskStore,
        version: String,
        orchestrator_url: String,
        device_id: String,
    ) -> (r: Self)
        requires
            store.wf(),
        ensures
            r.wf(),
            r.store == store,
            r.orch_connected == false,
            r.version == version,
            r.orchestrator_url == orchestrator_url,
            r.device_id == device_id,
            r.task_subs.model() == Seq::<crate::router::SubscriberV>::empty(),
    {
        ServerState {
            task_subs: SubscriberRegistry::new(),
            store,
            version,
            orch_connected: false,
            orchestrator_url,
            device_id,
        }
    }

    pub fn is_orch_connected(&self) -> (r: bool)
        ensures
            r == self.orch_connected,
    {
        self.orch_connected
    }

    pub fn set_orch_connected(&mut self, connected: bool)
        ensures
            *final(self) == (ServerState { orch_connected: connected, ..*old(self) }),
    {
        self.orch_connected = connected;
    }

    /// The status snapshot pushed to a client right after it connects.
    pub fn connection_snapshot(&self) -> (r: LocalEnvelope)
        ensures
            r.v == PROTOCOL_VERSION,
            r.payload@ == (LocalPayloadV::DaemonStatus {
                daemon_version: self.version@,
                protocol_version: PROTOCOL_VERSION,
                orchestrator_connected: self.orch_connected,
                orchestrator_url: self.orchestrator_url@,
                active_tasks: self.store.tasks_model().len() as u64,
                device_id: self.device_id@,
            }),
    {
        let count = self.store.task_count();
        LocalEnvelope::daemon_status(
            self.version.as_str(),
            self.orch_connected,
            count as u64,
            self.orchestrator_url.as_str(),
            self.device_id.as_str(),
        )
    }
}

/// What handling one client envelope asks the connection loop to do.
pub struct HandleOutcome {
    /// A direct reply to write on the same connection, in receipt order.
    pub reply: Option<LocalEnvelope>,
    /// A payload to forward verbatim to the orchestrator.
    pub forward: Option<LocalPayload>,
    /// Whether to close the connection; protocol errors never ask for it.
    pub close: bool,
}

/// The error text for a client speaking the wrong protocol version.
pub open spec fn version_mismatch_msg(expected: u32, got: u32) -> Seq<char> {
    "Expected protocol version "@ + dec_digits(expected as nat) + ", got "@ + dec_digits(
        got as nat,
    )
}

/// The error text for a message type the daemon does not handle.
pub open spec fn unknown_type_msg(p: LocalPayloadV) -> Seq<char> {
    "Unknown message type: "@ + spec_msg_type(p)
}

/// Handles one decoded client envelope against the shared state.
///
/// A wrong protocol version or an unhandled type gets an `error` reply and
/// changes nothing; the connection always stays open. A heartbeat gets a
/// pong. `task.submit` registers this connection as the task's subscriber,
/// persists the task (a duplicate id leaves the store unchanged), and
/// forwards the payload upstream. Plan approvals, permission responses and
/// cancellations are forwarded upstream verbatim.
pub fn handle_client_message(
    state: &mut ServerState,
    conn: u64,
    env: &LocalEnvelope,
    now_ms: i64,
) -> (r: HandleOutcome)
    requires
        old(state).wf(),
    ensures
        final(state).wf(),
        r.close == false,
        final(state).version == old(state).version,
        final(state).orch_connected == old(state).orch_connected,
        final(state).orchestrator_url == old(state).orchestrator_url,
        final(state).device_id == old(state).device_id,
        final(state).store.steps_model() == old(state).store.steps_model(),
        final(state).store.log_model() == old(state).store.log_model(),
        env.v != PROTOCOL_VERSION ==> {
            &&& final(state).task_subs.model() == old(state).task_subs.model()
            &&& final(state).store.tasks_model() == old(state).store.tasks_model()
            &&& final(state).store.steps_model() == old(state).store.steps_model()
            &&& r.forward is None
            &&& match r.reply {
                Some(rep) => rep.v == PROTOCOL_VERSION && rep.payload@
                    == (LocalPayloadV::Error {
                    code: ErrorCode::ProtocolVersionMismatch,
                    message: version_mismatch_msg(PROTOCOL_VERSION, env.v),
                    request_id: Some(env.id@),
                }),
                None => false,
            }
        },
        env.v == PROTOCOL_VERSION ==> match env.payload@ {
            LocalPayloadV::Heartbeat => {
                &&& final(state).task_subs.model() == old(state).task_subs.model()
                &&& final(state).store.tasks_model() == old(state).store.tasks_model()
                &&& r.forward is None
                &&& match r.reply {
                    Some(rep) => rep.v == PROTOCOL_VERSION && rep.payload@ == LocalPayloadV::Pong,
                    None => false,
                }
            },
            LocalPayloadV::TaskSubmit { task_id, input, .. } => {
                &&& has_sub(final(state).task_subs.model(), task_id)
                &&& sub_conn(final(state).task_subs.model(), task_id) == conn
                &&& (!has_task(old(state).store.tasks_model(), task_id)
                    ==> final(state).store.tasks_model()
                    == old(state).store.tasks_model().push(fresh_task(task_id, input, now_ms)))
                &&& (has_task(old(state).store.tasks_model(), task_id)
                    ==> final(state).store.tasks_model() == old(state).store.tasks_model())
                &&& r.reply is None
                &&& match r.forward {
                    Some(f) => f@ == env.payload@,
                    None => false,
                }
            },
            LocalPayloadV::PlanApprove { .. } => {
                &&& final(state).task_subs.model() == old(state).task_subs.model()
                &&& final(state).store.tasks_model() == old(state).store.tasks_model()
                &&& r.reply is None
                &&& match r.forward {
                    Some(f) => f@ == env.payload@,
                    None => false,
                }
            },
            LocalPayloadV::PermissionResponse { .. } => {
                &&& final(state).task_subs.model() == old(state).task_subs.model()
                &&& final(state).store.tasks_model() == old(state).store.tasks_model()
                &&& r.reply is None
                &&& match r.forward {
                    Some(f) => f@ == env.payload@,
                    None => false,
                }
            },
            LocalPayloadV::TaskCancel { .. } => {
                &&& final(state).task_subs.model() == old(state).task_subs.model()
                &&& final(state).store.tasks_model() == old(state).store.tasks_model()
                &&& r.reply is None
                &&& match r.forward {
                    Some(f) => f@ == env.payload@,
                    None => false,
                }
            },
            _ => {
                &&& final(state).task_subs.model() == old(state).task_subs.model()
                &&& final(state).store.tasks_model() == old(state).store.tasks_model()
                &&& r.forward is None
                &&& match r.reply {
                    Some(rep) => rep.v == PROTOCOL_VERSION && rep.payload@
                        == (LocalPayloadV::Error {
                        code: ErrorCode::ProtocolError,
                        message: unknown_type_msg(env.payload@),
                        request_id: Some(env.id@),
                    }),
                    None => false,
                }
            },
        },
{
    if env.v != PROTOCOL_VERSION {
        let mut message = String::from_str("Expected protocol version ");
        let expected = crate::text::u32_to_string(PROTOCOL_VERSION);
        message.append(expected.as_str());
        message.append(", got ");
        let got = crate::text::u32_to_string(env.v);
        message.append(got.as_str());
        proof {
            assert(message@ =~= version_mismatch_msg(PROTOCOL_VERSION, env.v));
        }
        let reply = LocalEnvelope::error(
            ErrorCode::ProtocolVersionMismatch,
            message,
            Some(env.id.clone()),
        );
        return HandleOutcome { reply: Some(reply), forward: None, close: false };
    }
    match &env.payload {
        LocalPayload::Heartbeat => {
            let reply = LocalEnvelope::heartbeat_pong();
            HandleOutcome { reply: Some(reply), forward: None, close: false }
        },
        LocalPayload::TaskSubmit { task_id, input, context } => {
            state.task_subs.register(task_id.as_str(), conn);
            let _inserted = state.store.insert_task(task_id.as_str(), input.as_str(), now_ms);
            let forward = LocalPayload::TaskSubmit {
                task_id: task_id.clone(),
                input: input.clone(),
                context: context.clone(),
            };
            proof {
                assert(forward@ == env.payload@);
            }
            HandleOutcome { reply: None, forward: Some(forward), close: false }
        },
        LocalPayload::PlanApprove { task_id, plan_id, action, modifications } => {
            let forward = LocalPayload::PlanApprove {
                task_id: task_id.clone(),
                plan_id: plan_id.clone(),
                action: action.clone(),
                modifications: match modifications {
                    Some(m) => Some(m.clone()),
                    None => None,
                },
            };
            proof {
                assert(forward@ == env.payload@);
            }
            HandleOutcome { reply: None, forward: Some(forward), close: false }
        },
        LocalPayload::PermissionResponse { task_id, permission_id, granted } => {
            let forward = LocalPayload::PermissionResponse {
                task_id: task_id.clone(),
                permission_id: permission_id.clone(),
                granted: *granted,
            };
            proof {
                assert(forward@ == env.payload@);
            }
            HandleOutcome { reply: None, forward: Some(forward), close: false }
        },
        LocalPayload::TaskCancel { task_id } => {
            let forward = LocalPayload::TaskCancel { task_id: task_id.clone() };
            proof {
                assert(forward@ == env.payload@);
            }
            HandleOutcome { reply: None, forward: Some(forward), close: false }
        },
        _ => {
            let mut message = String::from_str("Unknown message type: ");
            let tname = env.msg_type();
            message.append(tname.as_str());
            proof {
                assert(message@ =~= unknown_type_msg(env.payload@));
            }
            let reply = LocalEnvelope::error(
                ErrorCode::ProtocolError,
                message,
                Some(env.id.clone()),
            );
            HandleOutcome { reply: Some(reply), forward: None, close: false }
        },
    }
}

} // verus!
