//! The message router: inbound orchestrator messages are delivered to the
//! local subscriber registered for their task id, or broadcast to every
//! subscriber when no task id is present. Delivery is best-effort: with no
//! subscriber registered, the message is dropped.

use vstd::prelude::*;
use vstd::string::*;
use crate::protocol::{LocalEnvelope, LocalPayload, LocalPayloadV};

verus! {

/// One registration: the local connection that receives events for a task.
pub struct Subscriber {
    pub task_id: String,
    pub conn: u64,
}

pub struct SubscriberV {
    pub task_id: Seq<char>,
    pub conn: u64,
}

impl View for Subscriber {
    type V = SubscriberV;

    open spec fn view(&self) -> SubscriberV {
        SubscriberV { task_id: self.task_id@, conn: self.conn }
    }
}

/// Index of the registration for a task id, or -1.
pub open spec fn sub_idx(s: Seq<SubscriberV>, id: Seq<char>) -> int
    decreases s.len(),
{
    if s.len() == 0 {
        -1
    } else if s[0].task_id == id {
        0
    } else {
        let r = sub_idx(s.drop_first(), id);
        if r < 0 {
            -1
        } else {
            r + 1
        }
    }
}

pub open spec fn has_sub(s: Seq<SubscriberV>, id: Seq<char>) -> bool {
    sub_idx(s, id) >= 0
}

pub open spec fn sub_conn(s: Seq<SubscriberV>, id: Seq<char>) -> u64 {
    s[sub_idx(s, id)].conn
}

pub proof fn lemma_sub_idx_spec(s: Seq<SubscriberV>, id: Seq<char>)
    ensures
        -1 <= sub_idx(s, id) < s.len(),
        sub_idx(s, id) >= 0 ==> s[sub_idx(s, id)].task_id == id,
        sub_idx(s, id) == -1 ==> forall|j: int| 0 <= j < s.len() ==> s[j].task_id != id,
        sub_idx(s, id) >= 0 ==> forall|j: int| 0 <= j < sub_idx(s, id) ==> s[j].task_id != id,
    decreases s.len(),
{
    if s.len() > 0 && s[0].task_id != id {
        lemma_sub_idx_spec(s.drop_first(), id);
        assert(forall|j: int| 1 <= j < s.len() ==> s[j] == s.drop_first()[j - 1]);
    }
}

pub proof fn lemma_sub_idx_first(s: Seq<SubscriberV>, id: Seq<char>, i: int)
    requires
        0 <= i < s.len(),
        s[i].task_id == id,
        forall|j: int| 0 <= j < i ==> s[j].task_id != id,
    ensures
        sub_idx(s, id) == i,
    decreases s.len(),
{
    if i > 0 {
        lemma_sub_idx_first(s.drop_first(), id, i - 1);
        assert(forall|j: int| 1 <= j < s.len() ==> s[j] == s.drop_first()[j - 1]);
        assert(s.drop_first()[i - 1] == s[i]);
    }
}

/// The registry: at most one active subscriber per task id. A second
/// registration for the same id overwrites the first, so events reroute to
/// the newer connection.
pub struct SubscriberRegistry {
    entries: Vec<Subscriber>,
}

impl SubscriberRegistry {
    pub closed spec fn model(self) -> Seq<SubscriberV> {
        self.entries@.map_values(|e: Subscriber| e@)
    }

    /// Registry invariant: one registration per task id.
    pub closed spec fn wf(self) -> bool {
        forall|i: int, j: int|
            0 <= i < j < self.model().len() ==> (#[trigger] self.model()[i]).task_id != (
            #[trigger] self.model()[j]).task_id
    }

    pub fn new() -> (r: Self)
        ensures
            r.model() == Seq::<SubscriberV>::empty(),
            r.wf(),
    {
        let r = SubscriberRegistry { entries: Vec::new() };
        proof {
            assert(r.model() =~= Seq::<SubscriberV>::empty());
        }
        r
    }

    fn find(&self, key: &String) -> (r: Option<usize>)
        ensures
            match r {
                Some(i) => sub_idx(self.model(), key@) == i as int && i < self.entries@.len(),
                None => sub_idx(self.model(), key@) == -1,
            },
    {
        let n = self.entries.len();
        let mut i: usize = 0;
        while i < n
            invariant
                i <= n,
                n == self.entries@.len(),
                forall|j: int| 0 <= j < i ==> self.model()[j].task_id != key@,
            decreases n - i,
        {
            if self.entries[i].task_id == *key {
                proof {
                    lemma_sub_idx_first(self.model(), key@, i as int);
                }
                return Some(i);
            }
            i = i + 1;
        }
        proof {
            lemma_sub_idx_spec(self.model(), key@);
            if sub_idx(self.model(), key@) >= 0 {
                assert(self.model()[sub_idx(self.model(), key@)].task_id == key@);
            }
        }
        None
    }

    /// Registers (or re-registers) the subscriber for a task id; a second
    /// registration for one id replaces the first.
    pub fn register(&mut self, task_id: &str, conn: u64)
        requires
            old(self).wf(),
        ensures
            final(self).wf(),
            has_sub(final(self).model(), task_id@),
            sub_conn(final(self).model(), task_id@) == conn,
            forall|id: Seq<char>|
                id != task_id@ ==> #[trigger] has_sub(final(self).model(), id) == has_sub(
                    old(self).model(),
                    id,
                ) && (has_sub(old(self).model(), id) ==> sub_conn(final(self).model(), id)
                    == sub_conn(old(self).model(), id)),
    {
        let key = String::from_str(task_id);
        match self.find(&key) {
            Some(i) => {
                let updated = Subscriber { task_id: key, conn };
                self.entries.set(i, updated);
                proof {
                    let m1 = old(self).model();
                    let m2 = self.model();
                    let ix = sub_idx(m1, task_id@);
                    lemma_sub_idx_spec(m1, task_id@);
                    assert(m2 =~= m1.update(ix, SubscriberV { task_id: task_id@, conn }));
                    lemma_sub_idx_first(m2, task_id@, ix);
                    assert forall|id: Seq<char>| id != task_id@ implies #[trigger] has_sub(
                        m2,
                        id,
                    ) == has_sub(m1, id) && (has_sub(m1, id) ==> sub_conn(m2, id) == sub_conn(
                        m1,
                        id,
                    )) by {
                        lemma_sub_idx_same(m1, m2, id);
                    }
                }
            },
            None => {
                proof {
                    lemma_sub_idx_spec(old(self).model(), task_id@);
                }
                self.entries.push(Subscriber { task_id: key, conn });
                proof {
                    let m1 = old(self).model();
                    let m2 = self.model();
                    assert(m2 =~= m1.push(SubscriberV { task_id: task_id@, conn }));
                    lemma_sub_idx_first(m2, task_id@, m1.len() as int);
                    assert forall|id: Seq<char>| id != task_id@ implies #[trigger] has_sub(
                        m2,
                        id,
                    ) == has_sub(m1, id) && (has_sub(m1, id) ==> sub_conn(m2, id) == sub_conn(
                        m1,
                        id,
                    )) by {
                        lemma_sub_idx_same(m1, m2, id);
                    }
                }
            },
        }
    }

    /// Removes every registration owned by a connection, done when that
    /// connection closes, so the registry does not leak stale subscribers.
    pub fn unregister_conn(&mut self, conn: u64)
        requires
            old(self).wf(),
        ensures
            final(self).wf(),
            final(self).model() == old(self).model().filter(|e: SubscriberV| e.conn != conn),
    {
        let n = self.entries.len();
        let mut out: Vec<Subscriber> = Vec::new();
        let mut i: usize = 0;
        proof {
            reveal(Seq::filter);
            assert(old(self).model().take(0) =~= Seq::<SubscriberV>::empty());
        }
        while i < n
            invariant
                i <= n,
                n == self.entries@.len(),
                *self == *old(self),
                self.wf(),
                out@.map_values(|e: Subscriber| e@) == old(self).model().take(i as int).filter(
                    |e: SubscriberV| e.conn != conn,
                ),
                forall|a: int|
                    0 <= a < out@.len() ==> exists|j: int|
                        0 <= j < i && #[trigger] out@[a]@ == self.model()[j],
            decreases n - i,
        {
            let ghost prev = out@;
            let ghost m = self.model();
            let ghost taken = m.take(i as int);
            let ghost taken1 = m.take(i as int + 1);
            proof {
                reveal(Seq::filter);
                assert(taken1.drop_last() =~= taken);
                assert(taken1.last() == m[i as int]);
            }
            if self.entries[i].conn != conn {
                out.push(
                    Subscriber { task_id: self.entries[i].task_id.clone(), conn: self.entries[i].conn },
                );
                proof {
                    assert(out@[out@.len() - 1]@ == m[i as int]);
                    assert(out@.map_values(|e: Subscriber| e@) =~= prev.map_values(
                        |e: Subscriber| e@,
                    ).push(m[i as int]));
                    assert(out@.map_values(|e: Subscriber| e@) =~= taken1.filter(
                        |e: SubscriberV| e.conn != conn,
                    ));
                    assert forall|a: int| 0 <= a < out@.len() implies exists|j: int|
                        0 <= j < i + 1 && #[trigger] out@[a]@ == m[j] by {
                        if a < prev.len() {
                            let j = choose|j: int| 0 <= j < i && #[trigger] prev[a]@ == m[j];
                            assert(out@[a] == prev[a]);
                            assert(0 <= j < i + 1 && out@[a]@ == m[j]);
                        } else {
                            assert(out@[a]@ == m[i as int]);
                        }
                    }
                }
            } else {
                proof {
                    assert(out@.map_values(|e: Subscriber| e@) =~= taken1.filter(
                        |e: SubscriberV| e.conn != conn,
                    ));
                }
            }
            i = i + 1;
        }
        proof {
            assert(old(self).model().take(n as int) =~= old(self).model());
        }
        self.entries = out;
        proof {
            let m1 = old(self).model();
            lemma_filter_unique(m1, |e: SubscriberV| e.conn != conn);
        }
    }

    /// The subscriber registered for a task id, if any.
    pub fn lookup(&self, task_id: &str) -> (r: Option<u64>)
        ensures
            match r {
                Some(c) => has_sub(self.model(), task_id@) && c == sub_conn(
                    self.model(),
                    task_id@,
                ),
                None => !has_sub(self.model(), task_id@),
            },
    {
        let key = String::from_str(task_id);
        match self.find(&key) {
            Some(i) => Some(self.entries[i].conn),
            None => None,
        }
    }

    /// Every registered connection, in registration order.
    pub fn all_conns(&self) -> (r: Vec<u64>)
        ensures
            r@ == self.model().map_values(|e: SubscriberV| e.conn),
    {
        let n = self.entries.len();
        let mut out: Vec<u64> = Vec::new();
        let mut i: usize = 0;
        while i < n
            invariant
                i <= n,
                n == self.entries@.len(),
                out@ == self.model().map_values(|e: SubscriberV| e.conn).take(i as int),
            decreases n - i,
        {
            out.push(self.entries[i].conn);
            proof {
                let cm = self.model().map_values(|e: SubscriberV| e.conn);
                assert(out@ =~= cm.take(i as int + 1));
            }
            i = i + 1;
        }
        proof {
            let cm = self.model().map_values(|e: SubscriberV| e.conn);
            assert(cm.take(n as int) =~= cm);
        }
        out
    }

    /// How many subscribers are registered.
    pub fn len(&self) -> (r: usize)
        ensures
            r == self.model().len(),
    {
        self.entries.len()
    }
}

/// Every element of a filtered sequence comes from the source sequence.
proof fn lemma_filter_source(s: Seq<SubscriberV>, pred: spec_fn(SubscriberV) -> bool, a: int)
    requires
        0 <= a < s.filter(pred).len(),
    ensures
        exists|j: int| 0 <= j < s.len() && #[trigger] s[j] == s.filter(pred)[a],
    decreases s.len(),
{
    reveal(Seq::filter);
    s.lemma_filter_len(pred);
    if s.len() > 0 {
        let fl = s.drop_last().filter(pred);
        if pred(s.last()) && a == fl.len() {
            assert(s[s.len() - 1] == s.filter(pred)[a]);
        } else {
            lemma_filter_source(s.drop_last(), pred, a);
            let j = choose|j: int|
                0 <= j < s.drop_last().len() && #[trigger] s.drop_last()[j] == fl[a];
            assert(s[j] == s.filter(pred)[a]);
        }
    }
}

/// Filtering keeps the one-registration-per-task-id invariant.
proof fn lemma_filter_unique(s: Seq<SubscriberV>, pred: spec_fn(SubscriberV) -> bool)
    requires
        forall|i: int, j: int|
            0 <= i < j < s.len() ==> (#[trigger] s[i]).task_id != (#[trigger] s[j]).task_id,
    ensures
        forall|a: int, b: int|
            0 <= a < b < s.filter(pred).len() ==> (#[trigger] s.filter(pred)[a]).task_id != (
            #[trigger] s.filter(pred)[b]).task_id,
    decreases s.len(),
{
    reveal(Seq::filter);
    s.lemma_filter_len(pred);
    if s.len() > 0 {
        let dl = s.drop_last();
        assert(forall|i: int, j: int|
            0 <= i < j < dl.len() ==> (#[trigger] dl[i]).task_id != (#[trigger] dl[j]).task_id);
        lemma_filter_unique(dl, pred);
        let fl = dl.filter(pred);
        assert forall|a: int, b: int|
            0 <= a < b < s.filter(pred).len() implies (#[trigger] s.filter(pred)[a]).task_id != (
        #[trigger] s.filter(pred)[b]).task_id by {
            if pred(s.last()) && b == fl.len() {
                lemma_filter_source(dl, pred, a);
                let j = choose|j: int| 0 <= j < dl.len() && #[trigger] dl[j] == fl[a];
                assert(s[j] == fl[a]);
                assert(s[j].task_id != s[s.len() - 1].task_id);
                assert(s.filter(pred)[a] == fl[a]);
                assert(s.filter(pred)[b] == s.last());
            } else {
                assert(s.filter(pred)[a] == fl[a] && s.filter(pred)[b] == fl[b]);
            }
        }
    }
}

// ───────────────────────── routing ─────────────────────────

/// One inbound orchestrator message, as the routing logic reads it: its
/// type name (if any), a task id found at top level, a task id found
/// nested in the payload, and the payload text itself.
pub struct RoutedMessage {
    pub msg_type: Option<String>,
    pub task_id: Option<String>,
    pub payload_task_id: Option<String>,
    pub body: String,
}

/// The task id a message is routed by: the top-level one, or the payload's.
pub open spec fn spec_effective_task_id(
    top: Option<Seq<char>>,
    nested: Option<Seq<char>>,
) -> Option<Seq<char>> {
    match top {
        Some(t) => Some(t),
        None => nested,
    }
}

/// Where one message goes.
pub enum RouteDecision {
    /// Delivered to exactly the subscriber registered for the task id.
    Deliver { conn: u64 },
    /// A task id was present but nobody is registered for it: logged and
    /// dropped, with no buffering.
    DropNoSubscriber,
    /// No task id: broadcast to every registered subscriber.
    Broadcast { conns: Vec<u64> },
}

/// Routes one inbound orchestrator message: with a task id it is delivered
/// only to that id's subscriber (or dropped when none is registered);
/// without one it is broadcast to every subscriber. Also builds the
/// envelope pushed to the chosen clients.
pub fn route_orchestrator_message(msg: &RoutedMessage, subs: &SubscriberRegistry) -> (r: (
    LocalEnvelope,
    RouteDecision,
))
    ensures
        r.0.v == crate::PROTOCOL_VERSION,
        r.0.payload@ == (LocalPayloadV::Event {
            event_type: match msg.msg_type {
                Some(t) => t@,
                None => "unknown"@,
            },
            body: msg.body@,
        }),
        match spec_effective_task_id(
            crate::protocol::opt_view(msg.task_id),
            crate::protocol::opt_view(msg.payload_task_id),
        ) {
            Some(tid) => {
                if has_sub(subs.model(), tid) {
                    r.1 == (RouteDecision::Deliver { conn: sub_conn(subs.model(), tid) })
                } else {
                    r.1 == RouteDecision::DropNoSubscriber
                }
            },
            None => match r.1 {
                RouteDecision::Broadcast { conns } => conns@ == subs.model().map_values(
                    |e: SubscriberV| e.conn,
                ),
                _ => false,
            },
        },
{
    let event_type = match &msg.msg_type {
        Some(t) => t.clone(),
        None => String::from_str("unknown"),
    };
    let envelope = LocalEnvelope::new(
        LocalPayload::Event { event_type, body: msg.body.clone() },
    );
    let tid: Option<&String> = match &msg.task_id {
        Some(t) => Some(t),
        None => match &msg.payload_task_id {
            Some(t) => Some(t),
            None => None,
        },
    };
    let decision = match tid {
        Some(t) => match subs.lookup(t.as_str()) {
            Some(conn) => RouteDecision::Deliver { conn },
            None => RouteDecision::DropNoSubscriber,
        },
        None => RouteDecision::Broadcast { conns: subs.all_conns() },
    };
    (envelope, decision)
}

/// Register-then-route law: after registering a subscriber for a task id,
/// a message carrying that id routes to exactly that subscriber.
pub proof fn lemma_route_after_register(s: Seq<SubscriberV>, id: Seq<char>, conn: u64)
    requires
        has_sub(s, id),
        sub_conn(s, id) == conn,
    ensures
        sub_idx(s, id) >= 0,
        s[sub_idx(s, id)].conn == conn,
{
    lemma_sub_idx_spec(s, id);
}

proof fn lemma_sub_idx_same(m1: Seq<SubscriberV>, m2: Seq<SubscriberV>, id: Seq<char>)
    requires
        m1.len() <= m2.len(),
        m2.len() <= m1.len() + 1,
        forall|j: int| 0 <= j < m1.len() && m1[j].task_id == id ==> #[trigger] m2[j] == m1[j],
        forall|j: int| 0 <= j < m1.len() && m1[j].task_id != id ==> (#[trigger] m2[j]).task_id
            != id,
        m2.len() == m1.len() + 1 ==> m2[m1.len() as int].task_id != id,
    ensures
        has_sub(m2, id) == has_sub(m1, id),
        has_sub(m1, id) ==> sub_conn(m2, id) == sub_conn(m1, id),
{
    lemma_sub_idx_spec(m1, id);
    lemma_sub_idx_spec(m2, id);
    if has_sub(m1, id) {
        let i = sub_idx(m1, id);
        assert(m2[i] == m1[i]);
        lemma_sub_idx_first(m2, id, i);
    } else {
        if has_sub(m2, id) {
            let i = sub_idx(m2, id);
            assert(m2[i].task_id == id);
            if i < m1.len() {
                assert(m1[i].task_id != id);
            }
        }
    }
}

} // verus!
