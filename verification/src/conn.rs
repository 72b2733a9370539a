//! The orchestrator link's reconnection state machine, separated from the
//! socket loop: pure transitions between Disconnected, Connecting,
//! Connected and BackingOff, with the backoff delay folded in. The loop
//! around it only connects, reads, writes and sleeps as told.

use vstd::prelude::*;
use crate::backoff::{ReconnectBackoff, spec_delay};

verus! {

/// Where the orchestrator link stands.
#[derive(Clone, Copy, PartialEq, Eq, Structural, Debug)]
pub enum ConnState {
    Disconnected,
    Connecting,
    Connected,
    BackingOff,
}

/// What just happened to the link.
#[derive(Clone, Copy, PartialEq, Eq, Structural, Debug)]
pub enum ConnEvent {
    /// The loop begins a connection attempt.
    StartAttempt,
    /// The attempt produced a live stream.
    ConnectSucceeded,
    /// The attempt failed (refused, reset, timeout).
    ConnectFailed,
    /// A connected session's read or write loop ended.
    StreamEnded,
    /// The backoff sleep ran out.
    BackoffElapsed,
}

/// The pure transition function of the link.
pub open spec fn spec_next(s: ConnState, e: ConnEvent) -> ConnState {
    match (s, e) {
        (ConnState::Disconnected, ConnEvent::StartAttempt) => ConnState::Connecting,
        (ConnState::Connecting, ConnEvent::ConnectSucceeded) => ConnState::Connected,
        (ConnState::Connecting, ConnEvent::ConnectFailed) => ConnState::BackingOff,
        (ConnState::Connected, ConnEvent::StreamEnded) => ConnState::BackingOff,
        (ConnState::BackingOff, ConnEvent::BackoffElapsed) => ConnState::Connecting,
        _ => s,
    }
}

/// What the socket loop must do after a transition.
pub struct StepOutcome {
    /// A connection-state change to publish to observers, if any.
    pub announce: Option<bool>,
    /// How long to back off before the next attempt, if at all.
    pub sleep_secs: Option<u64>,
}

/// The reconnecting client: its state and its backoff.
pub struct OrchestratorClient {
    pub state: ConnState,
    pub backoff: ReconnectBackoff,
}

impl OrchestratorClient {
    pub open spec fn backoff_current(self) -> u64 {
        self.backoff.current()
    }

    pub open spec fn backoff_base(self) -> u64 {
        self.backoff.base()
    }

    pub open spec fn backoff_cap(self) -> u64 {
        self.backoff.cap()
    }

    pub open spec fn wf(self) -> bool {
        self.backoff.wf()
    }

    /// A fresh client, disconnected, with its backoff at the base delay.
    pub fn new(backoff_base_secs: u64, backoff_max_secs: u64) -> (r: Self)
        ensures
            r.state == ConnState::Disconnected,
            r.backoff_base() == backoff_base_secs,
            r.backoff_cap() == backoff_max_secs,
            r.backoff_current() == spec_delay(backoff_base_secs, backoff_max_secs, 0),
            r.wf(),
    {
        OrchestratorClient {
            state: ConnState::Disconnected,
            backoff: ReconnectBackoff::new(backoff_base_secs, backoff_max_secs),
        }
    }

    /// Feeds one event through the transition function. A successful
    /// connect resets the backoff to its base and announces the link up; a
    /// failure or a dead session announces the link down and asks the loop
    /// to sleep for the next backoff delay, which doubles up to the cap.
    pub fn step(&mut self, event: ConnEvent) -> (r: StepOutcome)
        requires
            old(self).wf(),
        ensures
            final(self).wf(),
            final(self).state == spec_next(old(self).state, event),
            final(self).backoff_base() == old(self).backoff_base(),
            final(self).backoff_cap() == old(self).backoff_cap(),
            old(self).state == ConnState::Connecting && event == ConnEvent::ConnectSucceeded
                ==> r.announce == Some(true) && r.sleep_secs is None && final(self).backoff_current() == spec_delay(
                old(self).backoff_base(),
                old(self).backoff_cap(),
                0,
            ),
            (old(self).state == ConnState::Connecting && event == ConnEvent::ConnectFailed) || (
            old(self).state == ConnState::Connected && event == ConnEvent::StreamEnded) ==> {
                &&& r.announce == Some(false)
                &&& r.sleep_secs == Some(old(self).backoff_current())
                &&& old(self).backoff_current() <= old(self).backoff_cap()
                &&& final(self).backoff_current() == vstd::math::min(
                    old(self).backoff_current() * 2,
                    old(self).backoff_cap() as int,
                )
            },
            spec_next(old(self).state, event) == old(self).state && !(old(self).state
                == ConnState::Connecting && event == ConnEvent::ConnectSucceeded) ==> r.announce
                is None && r.sleep_secs is None && final(self).backoff_current() == old(self).backoff_current(),
            old(self).state == ConnState::Disconnected || old(self).state == ConnState::BackingOff
                ==> r.announce is None && r.sleep_secs is None && final(self).backoff_current()
                == old(self).backoff_current(),
    {
        match (self.state, event) {
            (ConnState::Disconnected, ConnEvent::StartAttempt) => {
                self.state = ConnState::Connecting;
                StepOutcome { announce: None, sleep_secs: None }
            },
            (ConnState::Connecting, ConnEvent::ConnectSucceeded) => {
                self.state = ConnState::Connected;
                self.backoff.reset();
                StepOutcome { announce: Some(true), sleep_secs: None }
            },
            (ConnState::Connecting, ConnEvent::ConnectFailed) => {
                self.state = ConnState::BackingOff;
                proof {
                    crate::backoff::lemma_backoff_delay_bounded(self.backoff);
                }
                let delay = self.backoff.next_delay_secs();
                StepOutcome { announce: Some(false), sleep_secs: Some(delay) }
            },
            (ConnState::Connected, ConnEvent::StreamEnded) => {
                self.state = ConnState::BackingOff;
                proof {
                    crate::backoff::lemma_backoff_delay_bounded(self.backoff);
                }
                let delay = self.backoff.next_delay_secs();
                StepOutcome { announce: Some(false), sleep_secs: Some(delay) }
            },
            (ConnState::BackingOff, ConnEvent::BackoffElapsed) => {
                self.state = ConnState::Connecting;
                StepOutcome { announce: None, sleep_secs: None }
            },
            _ => {
                StepOutcome { announce: None, sleep_secs: None }
            },
        }
    }
}

/// The reconnect cycle: from Connected, losing the stream and waiting out
/// the backoff leads back to Connecting — the daemon never leaves the
/// machine in a dead end.
pub proof fn lemma_reconnect_cycle()
    ensures
        spec_next(ConnState::Connected, ConnEvent::StreamEnded) == ConnState::BackingOff,
        spec_next(ConnState::BackingOff, ConnEvent::BackoffElapsed) == ConnState::Connecting,
        spec_next(ConnState::Connecting, ConnEvent::ConnectSucceeded) == ConnState::Connected,
        spec_next(ConnState::Connecting, ConnEvent::ConnectFailed) == ConnState::BackingOff,
{
}

} // verus!
