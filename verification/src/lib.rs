//! Core library of the d1doctor local daemon: wire codecs for the two
//! envelope formats, the reconnect state machine, per-task subscriber
//! routing, the durable task store model, the command-executor result
//! logic, and the local client protocol handler.

use vstd::prelude::*;

pub mod sys;
pub mod text;
pub mod wire;
pub mod protocol;
pub mod remote;
pub mod backoff;
pub mod conn;
pub mod store;
pub mod router;
pub mod server;
pub mod exec;
pub mod install;
pub mod config;
pub mod credits;
pub mod cli;
pub mod client;

verus! {

/// Version of the local JSON protocol spoken between daemon and clients.
pub const PROTOCOL_VERSION: u32 = 1;

/// Default port for the local daemon.
pub const DEFAULT_DAEMON_PORT: u16 = 9876;

/// The daemon accepts WebSocket upgrades only on this path.
pub fn is_ws_path(path: &str) -> (r: bool)
    ensures
        r == (path@ == "/ws"@),
{
    let p = String::from_str(path);
    let w = String::from_str("/ws");
    p == w
}

} // verus!
