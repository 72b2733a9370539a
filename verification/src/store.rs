//! The task store: the daemon's durable record of tasks, their steps, and
//! an append-only audit log. This model owns the store's logic — key
//! uniqueness, update semantics, recency order, per-task step order — while
//! the database file that mirrors it is written at the process edge.

use vstd::prelude::*;
use vstd::string::*;

verus! {

/// One persisted task; never deleted, forming an audit trail.
pub struct Task {
    pub task_id: String,
    pub input: String,
    pub status: String,
    pub created_at: i64,
    pub updated_at: i64,
    pub result_json: Option<String>,
}

pub struct TaskV {
    pub task_id: Seq<char>,
    pub input: Seq<char>,
    pub status: Seq<char>,
    pub created_at: i64,
    pub updated_at: i64,
    pub result_json: Option<Seq<char>>,
}

pub open spec fn opt_str_view(o: Option<String>) -> Option<Seq<char>> {
    match o {
        Some(s) => Some(s@),
        None => None,
    }
}

impl View for Task {
    type V = TaskV;

    open spec fn view(&self) -> TaskV {
        TaskV {
            task_id: self.task_id@,
            input: self.input@,
            status: self.status@,
            created_at: self.created_at,
            updated_at: self.updated_at,
            result_json: opt_str_view(self.result_json),
        }
    }
}

fn clone_opt_string(o: &Option<String>) -> (r: Option<String>)
    ensures
        opt_str_view(r) == opt_str_view(*o),
{
    match o {
        Some(s) => Some(s.clone()),
        None => None,
    }
}

impl Clone for Task {
    fn clone(&self) -> (r: Self)
        ensures
            r@ == self@,
    {
        Task {
            task_id: self.task_id.clone(),
            input: self.input.clone(),
            status: self.status.clone(),
            created_at: self.created_at,
            updated_at: self.updated_at,
            result_json: clone_opt_string(&self.result_json),
        }
    }
}

/// One step of a task's plan.
pub struct TaskStep {
    pub step_id: String,
    pub task_id: String,
    pub step_order: i64,
    pub description: String,
    pub status: String,
    pub result_json: Option<String>,
    pub started_at: Option<i64>,
    pub completed_at: Option<i64>,
}

pub struct TaskStepV {
    pub step_id: Seq<char>,
    pub task_id: Seq<char>,
    pub step_order: i64,
    pub description: Seq<char>,
    pub status: Seq<char>,
    pub result_json: Option<Seq<char>>,
    pub started_at: Option<i64>,
    pub completed_at: Option<i64>,
}

impl View for TaskStep {
    type V = TaskStepV;

    open spec fn view(&self) -> TaskStepV {
        TaskStepV {
            step_id: self.step_id@,
            task_id: self.task_id@,
            step_order: self.step_order,
            description: self.description@,
            status: self.status@,
            result_json: opt_str_view(self.result_json),
            started_at: self.started_at,
            completed_at: self.completed_at,
        }
    }
}

impl Clone for TaskStep {
    fn clone(&self) -> (r: Self)
        ensures
            r@ == self@,
    {
        TaskStep {
            step_id: self.step_id.clone(),
            task_id: self.task_id.clone(),
            step_order: self.step_order,
            description: self.description.clone(),
            status: self.status.clone(),
            result_json: clone_opt_string(&self.result_json),
            started_at: self.started_at,
            completed_at: self.completed_at,
        }
    }
}

/// One entry of the append-only audit log.
pub struct LogEntry {
    pub level: String,
    pub msg: String,
    pub ts: i64,
}

pub struct LogEntryV {
    pub level: Seq<char>,
    pub msg: Seq<char>,
    pub ts: i64,
}

impl View for LogEntry {
    type V = LogEntryV;

    open spec fn view(&self) -> LogEntryV {
        LogEntryV { level: self.level@, msg: self.msg@, ts: self.ts }
    }
}

impl Clone for LogEntry {
    fn clone(&self) -> (r: Self)
        ensures
            r@ == self@,
    {
        LogEntry { level: self.level.clone(), msg: self.msg.clone(), ts: self.ts }
    }
}

/// Why a store operation was refused.
#[derive(Clone, Copy, PartialEq, Eq, Structural, Debug)]
pub enum StoreError {
    /// The task id is already present (primary-key violation).
    DuplicateTaskId,
    /// The step id is already present (primary-key violation).
    DuplicateStepId,
    /// The step's order is not above every existing order of its task:
    /// step order is monotonic per task.
    NonMonotonicStepOrder,
}

// ───────────────────────── model functions ─────────────────────────

/// Index of the first task with the given id, or -1.
pub open spec fn task_idx(s: Seq<TaskV>, id: Seq<char>) -> int
    decreases s.len(),
{
    if s.len() == 0 {
        -1
    } else if s[0].task_id == id {
        0
    } else {
        let r = task_idx(s.drop_first(), id);
        if r < 0 {
            -1
        } else {
            r + 1
        }
    }
}

pub open spec fn has_task(s: Seq<TaskV>, id: Seq<char>) -> bool {
    task_idx(s, id) >= 0
}

pub open spec fn task_at(s: Seq<TaskV>, id: Seq<char>) -> TaskV {
    s[task_idx(s, id)]
}

/// The model of a fresh task row.
pub open spec fn fresh_task(id: Seq<char>, input: Seq<char>, now_ms: i64) -> TaskV {
    TaskV {
        task_id: id,
        input,
        status: "submitted"@,
        created_at: now_ms,
        updated_at: now_ms,
        result_json: None,
    }
}

/// The model of `update_task_status`: the matching row (if any) gets the
/// new status, result and update time; everything else is untouched.
pub open spec fn spec_update_task(
    s: Seq<TaskV>,
    id: Seq<char>,
    status: Seq<char>,
    result_json: Option<Seq<char>>,
    now_ms: i64,
) -> Seq<TaskV> {
    if has_task(s, id) {
        s.update(
            task_idx(s, id),
            TaskV {
                status,
                result_json,
                updated_at: now_ms,
                ..s[task_idx(s, id)]
            },
        )
    } else {
        s
    }
}

pub open spec fn step_idx(s: Seq<TaskStepV>, id: Seq<char>) -> int
    decreases s.len(),
{
    if s.len() == 0 {
        -1
    } else if s[0].step_id == id {
        0
    } else {
        let r = step_idx(s.drop_first(), id);
        if r < 0 {
            -1
        } else {
            r + 1
        }
    }
}

pub open spec fn has_step(s: Seq<TaskStepV>, id: Seq<char>) -> bool {
    step_idx(s, id) >= 0
}

pub open spec fn step_at(s: Seq<TaskStepV>, id: Seq<char>) -> TaskStepV {
    s[step_idx(s, id)]
}

/// The steps of one task, in stored order.
pub open spec fn steps_of(s: Seq<TaskStepV>, task_id: Seq<char>) -> Seq<TaskStepV> {
    s.filter(|x: TaskStepV| x.task_id == task_id)
}

/// Rows in creation order: no task was created after a later row. The
/// daemon keeps this by inserting with the current clock, and the recency
/// listing is then ordered by creation time, newest first.
pub open spec fn chronological(s: Seq<TaskV>) -> bool {
    forall|i: int, j: int|
        0 <= i < j < s.len() ==> (#[trigger] s[i]).created_at <= (#[trigger] s[j]).created_at
}

/// Whether inserting a step with this order would break the per-task
/// monotonicity: some stored step of the task already sits at or above it.
pub open spec fn violates_step_order(s: Seq<TaskStepV>, task_id: Seq<char>, order: i64) -> bool {
    exists|j: int|
        0 <= j < s.len() && (#[trigger] s[j]).task_id == task_id && s[j].step_order >= order
}

// ───────────────────────── index lemmas ─────────────────────────

pub proof fn lemma_task_idx_spec(s: Seq<TaskV>, id: Seq<char>)
    ensures
        -1 <= task_idx(s, id) < s.len(),
        task_idx(s, id) >= 0 ==> s[task_idx(s, id)].task_id == id,
        task_idx(s, id) == -1 ==> forall|j: int| 0 <= j < s.len() ==> s[j].task_id != id,
        task_idx(s, id) >= 0 ==> forall|j: int| 0 <= j < task_idx(s, id) ==> s[j].task_id != id,
    decreases s.len(),
{
    if s.len() > 0 && s[0].task_id != id {
        lemma_task_idx_spec(s.drop_first(), id);
        assert(forall|j: int| 1 <= j < s.len() ==> s[j] == s.drop_first()[j - 1]);
    }
}

pub proof fn lemma_task_idx_first(s: Seq<TaskV>, id: Seq<char>, i: int)
    requires
        0 <= i < s.len(),
        s[i].task_id == id,
        forall|j: int| 0 <= j < i ==> s[j].task_id != id,
    ensures
        task_idx(s, id) == i,
    decreases s.len(),
{
    if i > 0 {
        lemma_task_idx_first(s.drop_first(), id, i - 1);
        assert(forall|j: int| 1 <= j < s.len() ==> s[j] == s.drop_first()[j - 1]);
        assert(s.drop_first()[i - 1] == s[i]);
    }
}

pub proof fn lemma_step_idx_spec(s: Seq<TaskStepV>, id: Seq<char>)
    ensures
        -1 <= step_idx(s, id) < s.len(),
        step_idx(s, id) >= 0 ==> s[step_idx(s, id)].step_id == id,
        step_idx(s, id) == -1 ==> forall|j: int| 0 <= j < s.len() ==> s[j].step_id != id,
        step_idx(s, id) >= 0 ==> forall|j: int| 0 <= j < step_idx(s, id) ==> s[j].step_id != id,
    decreases s.len(),
{
    if s.len() > 0 && s[0].step_id != id {
        lemma_step_idx_spec(s.drop_first(), id);
        assert(forall|j: int| 1 <= j < s.len() ==> s[j] == s.drop_first()[j - 1]);
    }
}

pub proof fn lemma_step_idx_first(s: Seq<TaskStepV>, id: Seq<char>, i: int)
    requires
        0 <= i < s.len(),
        s[i].step_id == id,
        forall|j: int| 0 <= j < i ==> s[j].step_id != id,
    ensures
        step_idx(s, id) == i,
    decreases s.len(),
{
    if i > 0 {
        lemma_step_idx_first(s.drop_first(), id, i - 1);
        assert(forall|j: int| 1 <= j < s.len() ==> s[j] == s.drop_first()[j - 1]);
        assert(s.drop_first()[i - 1] == s[i]);
    }
}

// ───────────────────────── the store ─────────────────────────

pub struct TaskStore {
    tasks: Vec<Task>,
    steps: Vec<TaskStep>,
    log: Vec<LogEntry>,
}

impl TaskStore {
    pub closed spec fn tasks_model(self) -> Seq<TaskV> {
        self.tasks@.map_values(|t: Task| t@)
    }

    pub closed spec fn steps_model(self) -> Seq<TaskStepV> {
        self.steps@.map_values(|t: TaskStep| t@)
    }

    pub closed spec fn log_model(self) -> Seq<LogEntryV> {
        self.log@.map_values(|e: LogEntry| e@)
    }

    pub open spec fn log_len(self) -> nat {
        self.log_model().len()
    }

    /// Store invariant: task ids unique, step ids unique, and step order
    /// strictly increasing within each task.
    pub closed spec fn wf(self) -> bool {
        &&& forall|i: int, j: int|
            0 <= i < j < self.tasks_model().len() ==> #[trigger] self.tasks_model()[i].task_id
                != #[trigger] self.tasks_model()[j].task_id
        &&& forall|i: int, j: int|
            0 <= i < j < self.steps_model().len() ==> #[trigger] self.steps_model()[i].step_id
                != #[trigger] self.steps_model()[j].step_id
        &&& forall|i: int, j: int|
            0 <= i < j < self.steps_model().len() && (#[trigger] self.steps_model()[i]).task_id
                == (#[trigger] self.steps_model()[j]).task_id ==> self.steps_model()[
                i
            ].step_order < self.steps_model()[j].step_order
    }

    /// An empty store.
    pub fn new() -> (r: Self)
        ensures
            r.tasks_model() == Seq::<TaskV>::empty(),
            r.steps_model() == Seq::<TaskStepV>::empty(),
            r.log_model() == Seq::<LogEntryV>::empty(),
            r.wf(),
    {
        let r = TaskStore { tasks: Vec::new(), steps: Vec::new(), log: Vec::new() };
        proof {
            assert(r.tasks_model() =~= Seq::<TaskV>::empty());
            assert(r.steps_model() =~= Seq::<TaskStepV>::empty());
            assert(r.log_model() =~= Seq::<LogEntryV>::empty());
        }
        r
    }

    fn find_task_index(&self, key: &String) -> (r: Option<usize>)
        ensures
            match r {
                Some(i) => task_idx(self.tasks_model(), key@) == i as int && i < self.tasks@.len(),
                None => task_idx(self.tasks_model(), key@) == -1,
            },
    {
        let n = self.tasks.len();
        let mut i: usize = 0;
        while i < n
            invariant
                i <= n,
                n == self.tasks@.len(),
                forall|j: int| 0 <= j < i ==> self.tasks_model()[j].task_id != key@,
            decreases n - i,
        {
            if self.tasks[i].task_id == *key {
                proof {
                    lemma_task_idx_first(self.tasks_model(), key@, i as int);
                }
                return Some(i);
            }
            i = i + 1;
        }
        proof {
            lemma_task_idx_spec(self.tasks_model(), key@);
            if task_idx(self.tasks_model(), key@) >= 0 {
                assert(self.tasks_model()[task_idx(self.tasks_model(), key@)].task_id == key@);
            }
        }
        None
    }

    /// Inserts a new task with status `submitted`; refused exactly when the
    /// id is already present, leaving the store unchanged.
    pub fn insert_task(&mut self, task_id: &str, input: &str, now_ms: i64) -> (r: Result<
        (),
        StoreError,
    >)
        requires
            old(self).wf(),
        ensures
            final(self).wf(),
            final(self).steps_model() == old(self).steps_model(),
            final(self).log_model() == old(self).log_model(),
            match r {
                Ok(()) => !has_task(old(self).tasks_model(), task_id@) && final(self).tasks_model()
                    == old(self).tasks_model().push(fresh_task(task_id@, input@, now_ms)),
                Err(e) => e == StoreError::DuplicateTaskId && has_task(
                    old(self).tasks_model(),
                    task_id@,
                ) && final(self).tasks_model() == old(self).tasks_model(),
            },
    {
        let key = String::from_str(task_id);
        match self.find_task_index(&key) {
            Some(_) => Err(StoreError::DuplicateTaskId),
            None => {
                let t = Task {
                    task_id: key,
                    input: String::from_str(input),
                    status: String::from_str("submitted"),
                    created_at: now_ms,
                    updated_at: now_ms,
                    result_json: None,
                };
                proof {
                    lemma_task_idx_spec(old(self).tasks_model(), task_id@);
                }
                self.tasks.push(t);
                proof {
                    assert(self.tasks_model() =~= old(self).tasks_model().push(
                        fresh_task(task_id@, input@, now_ms),
                    ));
                    assert(self.steps_model() =~= old(self).steps_model());
                }
                Ok(())
            },
        }
    }

    /// Looks a task up by id.
    pub fn get_task(&self, task_id: &str) -> (r: Option<Task>)
        ensures
            match r {
                Some(t) => has_task(self.tasks_model(), task_id@) && t@ == task_at(
                    self.tasks_model(),
                    task_id@,
                ),
                None => !has_task(self.tasks_model(), task_id@),
            },
    {
        let key = String::from_str(task_id);
        match self.find_task_index(&key) {
            Some(i) => Some(self.tasks[i].clone()),
            None => None,
        }
    }

    /// Updates a task's status, result and update time; a no-op when the id
    /// is absent.
    pub fn update_task_status(
        &mut self,
        task_id: &str,
        status: &str,
        result_json: Option<&str>,
        now_ms: i64,
    )
        requires
            old(self).wf(),
        ensures
            final(self).wf(),
            final(self).steps_model() == old(self).steps_model(),
            final(self).log_model() == old(self).log_model(),
            final(self).tasks_model() == spec_update_task(
                old(self).tasks_model(),
                task_id@,
                status@,
                match result_json {
                    Some(s) => Some(s@),
                    None => None,
                },
                now_ms,
            ),
    {
        let key = String::from_str(task_id);
        match self.find_task_index(&key) {
            Some(i) => {
                let updated = Task {
                    task_id: self.tasks[i].task_id.clone(),
                    input: self.tasks[i].input.clone(),
                    status: String::from_str(status),
                    created_at: self.tasks[i].created_at,
                    updated_at: now_ms,
                    result_json: match result_json {
                        Some(s) => Some(String::from_str(s)),
                        None => None,
                    },
                };
                self.tasks.set(i, updated);
                proof {
                    lemma_task_idx_spec(old(self).tasks_model(), task_id@);
                    assert(self.tasks_model() =~= spec_update_task(
                        old(self).tasks_model(),
                        task_id@,
                        status@,
                        match result_json {
                            Some(s) => Some(s@),
                            None => None,
                        },
                        now_ms,
                    ));
                    assert(self.steps_model() =~= old(self).steps_model());
                }
            },
            None => {
            },
        }
    }

    /// The most recently inserted tasks, newest first, at most `limit`.
    pub fn list_tasks_recent(&self, limit: u32) -> (r: Vec<Task>)
        ensures
            r@.len() == vstd::math::min(limit as int, self.tasks_model().len() as int),
            forall|k: int|
                0 <= k < r@.len() ==> #[trigger] r@[k]@ == self.tasks_model()[
                    self.tasks_model().len() - 1 - k
                ],
            chronological(self.tasks_model()) ==> forall|a: int, b: int|
                0 <= a < b < r@.len() ==> #[trigger] r@[a]@.created_at >= #[trigger] r@[
                    b
                ]@.created_at,
    {
        let n = self.tasks.len();
        let count = if (limit as usize) < n {
            limit as usize
        } else {
            n
        };
        let mut out: Vec<Task> = Vec::new();
        let mut k: usize = 0;
        while k < count
            invariant
                k <= count,
                count <= n,
                n == self.tasks@.len(),
                out@.len() == k,
                forall|j: int|
                    0 <= j < k ==> #[trigger] out@[j]@ == self.tasks_model()[n - 1 - j],
            decreases count - k,
        {
            out.push(self.tasks[n - 1 - k].clone());
            k = k + 1;
        }
        proof {
            if chronological(self.tasks_model()) {
                let m = self.tasks_model();
                assert forall|a: int, b: int| 0 <= a < b < out@.len() implies #[trigger] out@[
                    a
                ]@.created_at >= #[trigger] out@[b]@.created_at by {
                    assert(out@[a]@ == m[n - 1 - a]);
                    assert(out@[b]@ == m[n - 1 - b]);
                    assert(m[n - 1 - b].created_at <= m[n - 1 - a].created_at);
                }
            }
        }
        out
    }

    fn find_step_index(&self, key: &String) -> (r: Option<usize>)
        ensures
            match r {
                Some(i) => step_idx(self.steps_model(), key@) == i as int && i < self.steps@.len(),
                None => step_idx(self.steps_model(), key@) == -1,
            },
    {
        let n = self.steps.len();
        let mut i: usize = 0;
        while i < n
            invariant
                i <= n,
                n == self.steps@.len(),
                forall|j: int| 0 <= j < i ==> self.steps_model()[j].step_id != key@,
            decreases n - i,
        {
            if self.steps[i].step_id == *key {
                proof {
                    lemma_step_idx_first(self.steps_model(), key@, i as int);
                }
                return Some(i);
            }
            i = i + 1;
        }
        proof {
            lemma_step_idx_spec(self.steps_model(), key@);
            if step_idx(self.steps_model(), key@) >= 0 {
                assert(self.steps_model()[step_idx(self.steps_model(), key@)].step_id == key@);
            }
        }
        None
    }

    /// Inserts a new pending step. Refused with `DuplicateStepId` exactly
    /// when the step id exists, with `NonMonotonicStepOrder` exactly when
    /// the id is fresh but some stored step of the task already has an
    /// order at or above the new one (step order is monotonic per task) —
    /// the store is then unchanged; accepted in every other case.
    pub fn insert_step(&mut self, step_id: &str, task_id: &str, order: i64, description: &str)
        -> (r: Result<(), StoreError>)
        requires
            old(self).wf(),
        ensures
            final(self).wf(),
            final(self).tasks_model() == old(self).tasks_model(),
            final(self).log_model() == old(self).log_model(),
            has_step(old(self).steps_model(), step_id@) ==> r == Err::<(), StoreError>(
                StoreError::DuplicateStepId,
            ) && final(self).steps_model() == old(self).steps_model(),
            !has_step(old(self).steps_model(), step_id@) && violates_step_order(
                old(self).steps_model(),
                task_id@,
                order,
            ) ==> r == Err::<(), StoreError>(StoreError::NonMonotonicStepOrder) && final(self).steps_model() == old(self).steps_model(),
            !has_step(old(self).steps_model(), step_id@) && !violates_step_order(
                old(self).steps_model(),
                task_id@,
                order,
            ) ==> r == Ok::<(), StoreError>(()) && final(self).steps_model() == old(self).steps_model().push(
                TaskStepV {
                    step_id: step_id@,
                    task_id: task_id@,
                    step_order: order,
                    description: description@,
                    status: "pending"@,
                    result_json: None,
                    started_at: None,
                    completed_at: None,
                },
            ),
    {
        let key = String::from_str(step_id);
        match self.find_step_index(&key) {
            Some(_) => {
                proof {
                    assert(self.wf());
                }
                Err(StoreError::DuplicateStepId)
            },
            None => {
                proof {
                    lemma_step_idx_spec(old(self).steps_model(), step_id@);
                }
                let tid = String::from_str(task_id);
                let n = self.steps.len();
                let mut i: usize = 0;
                while i < n
                    invariant
                        i <= n,
                        n == self.steps@.len(),
                        *self == *old(self),
                        self.wf(),
                        tid@ == task_id@,
                        !has_step(self.steps_model(), step_id@),
                        forall|j: int|
                            0 <= j < i && (#[trigger] self.steps_model()[j]).task_id == tid@
                                ==> self.steps_model()[j].step_order < order,
                    decreases n - i,
                {
                    if self.steps[i].task_id == tid && self.steps[i].step_order >= order {
                        proof {
                            assert(self.wf());
                            assert((self.steps_model()[i as int]).task_id == task_id@
                                && self.steps_model()[i as int].step_order >= order);
                            assert(violates_step_order(self.steps_model(), task_id@, order));
                        }
                        return Err(StoreError::NonMonotonicStepOrder);
                    }
                    i = i + 1;
                }
                proof {
                    assert(*self == *old(self));
                    if violates_step_order(self.steps_model(), task_id@, order) {
                        let j = choose|j: int|
                            0 <= j < self.steps_model().len() && (#[trigger] self.steps_model()[
                                j
                            ]).task_id == task_id@ && self.steps_model()[j].step_order >= order;
                        assert(self.steps_model()[j].step_order < order);
                        assert(false);
                    }
                }
                let st = TaskStep {
                    step_id: key,
                    task_id: tid,
                    step_order: order,
                    description: String::from_str(description),
                    status: String::from_str("pending"),
                    result_json: None,
                    started_at: None,
                    completed_at: None,
                };
                self.steps.push(st);
                proof {
                    assert(self.steps_model() =~= old(self).steps_model().push(
                        TaskStepV {
                            step_id: step_id@,
                            task_id: task_id@,
                            step_order: order,
                            description: description@,
                            status: "pending"@,
                            result_json: None,
                            started_at: None,
                            completed_at: None,
                        },
                    ));
                    assert(self.tasks_model() =~= old(self).tasks_model());
                    let m1 = old(self).steps_model();
                    let m2 = self.steps_model();
                    lemma_step_idx_spec(m1, step_id@);
                    assert forall|a: int, b: int|
                        0 <= a < b < m2.len() implies #[trigger] m2[a].step_id != #[trigger] m2[
                        b
                    ].step_id by {
                        if b == m2.len() - 1 {
                            assert(m2[a] == m1[a]);
                            assert(m1[a].step_id != step_id@);
                        } else {
                            assert(m2[a] == m1[a] && m2[b] == m1[b]);
                        }
                    }
                    assert forall|a: int, b: int|
                        0 <= a < b < m2.len() && (#[trigger] m2[a]).task_id == (
                        #[trigger] m2[b]).task_id implies m2[a].step_order < m2[
                        b
                    ].step_order by {
                        if b == m2.len() - 1 {
                            assert(m2[a] == m1[a]);
                        } else {
                            assert(m2[a] == m1[a] && m2[b] == m1[b]);
                        }
                    }
                    assert(self.wf());
                }
                Ok(())
            },
        }
    }

    /// Updates a step's status, result and completion time; a no-op when
    /// the step id is absent.
    pub fn update_step_status(
        &mut self,
        step_id: &str,
        status: &str,
        result_json: Option<&str>,
        now_ms: i64,
    )
        requires
            old(self).wf(),
        ensures
            final(self).wf(),
            final(self).tasks_model() == old(self).tasks_model(),
            final(self).log_model() == old(self).log_model(),
            !has_step(old(self).steps_model(), step_id@) ==> final(self).steps_model() == old(self).steps_model(),
            has_step(old(self).steps_model(), step_id@) ==> final(self).steps_model() == old(self).steps_model().update(
                step_idx(old(self).steps_model(), step_id@),
                TaskStepV {
                    status: status@,
                    result_json: match result_json {
                        Some(s) => Some(s@),
                        None => None,
                    },
                    completed_at: Some(now_ms),
                    ..step_at(old(self).steps_model(), step_id@)
                },
            ),
    {
        let key = String::from_str(step_id);
        match self.find_step_index(&key) {
            Some(i) => {
                let updated = TaskStep {
                    step_id: self.steps[i].step_id.clone(),
                    task_id: self.steps[i].task_id.clone(),
                    step_order: self.steps[i].step_order,
                    description: self.steps[i].description.clone(),
                    status: String::from_str(status),
                    result_json: match result_json {
                        Some(s) => Some(String::from_str(s)),
                        None => None,
                    },
                    started_at: self.steps[i].started_at,
                    completed_at: Some(now_ms),
                };
                self.steps.set(i, updated);
                proof {
                    lemma_step_idx_spec(old(self).steps_model(), step_id@);
                    assert(self.steps_model() =~= old(self).steps_model().update(
                        step_idx(old(self).steps_model(), step_id@),
                        TaskStepV {
                            status: status@,
                            result_json: match result_json {
                                Some(s) => Some(s@),
                                None => None,
                            },
                            completed_at: Some(now_ms),
                            ..step_at(old(self).steps_model(), step_id@)
                        },
                    ));
                    assert(self.tasks_model() =~= old(self).tasks_model());
                }
            },
            None => {
            },
        }
    }

    /// The steps of one task, in stored order — which, by the store's
    /// invariant, is ascending step order.
    pub fn get_steps(&self, task_id: &str) -> (r: Vec<TaskStep>)
        requires
            self.wf(),
        ensures
            r@.map_values(|t: TaskStep| t@) == steps_of(self.steps_model(), task_id@),
            forall|a: int, b: int|
                0 <= a < b < r@.len() ==> #[trigger] r@[a]@.step_order < #[trigger] r@[
                    b
                ]@.step_order,
    {
        let key = String::from_str(task_id);
        let n = self.steps.len();
        let mut out: Vec<TaskStep> = Vec::new();
        let mut i: usize = 0;
        proof {
            assert(self.steps_model().take(0) =~= Seq::<TaskStepV>::empty());
            reveal(Seq::filter);
        }
        while i < n
            invariant
                i <= n,
                n == self.steps@.len(),
                self.wf(),
                key@ == task_id@,
                out@.map_values(|t: TaskStep| t@) == steps_of(
                    self.steps_model().take(i as int),
                    task_id@,
                ),
                forall|a: int|
                    0 <= a < out@.len() ==> exists|j: int|
                        0 <= j < i && #[trigger] out@[a]@ == self.steps_model()[j]
                            && self.steps_model()[j].task_id == task_id@,
                forall|a: int, b: int|
                    0 <= a < b < out@.len() ==> #[trigger] out@[a]@.step_order < #[trigger] out@[
                        b
                    ]@.step_order,
            decreases n - i,
        {
            let ghost prev = out@;
            let ghost m = self.steps_model();
            let ghost taken = m.take(i as int);
            let ghost taken1 = m.take(i as int + 1);
            proof {
                reveal(Seq::filter);
                assert(taken1.drop_last() =~= taken);
                assert(taken1.last() == m[i as int]);
            }
            if self.steps[i].task_id == key {
                out.push(self.steps[i].clone());
                proof {
                    assert(out@ == prev.push(out@[out@.len() - 1]));
                    assert(out@[out@.len() - 1]@ == m[i as int]);
                    assert(out@.map_values(|t: TaskStep| t@) =~= prev.map_values(
                        |t: TaskStep| t@,
                    ).push(m[i as int]));
                    assert(out@.map_values(|t: TaskStep| t@) =~= steps_of(taken1, task_id@));
                    assert forall|a: int| 0 <= a < out@.len() implies exists|j: int|
                        0 <= j < i + 1 && #[trigger] out@[a]@ == m[j] && m[j].task_id
                            == task_id@ by {
                        if a < prev.len() {
                            let j = choose|j: int|
                                0 <= j < i && #[trigger] prev[a]@ == m[j] && m[j].task_id
                                    == task_id@;
                            assert(out@[a] == prev[a]);
                            assert(0 <= j < i + 1 && out@[a]@ == m[j] && m[j].task_id == task_id@);
                        } else {
                            assert(out@[a]@ == m[i as int] && m[i as int].task_id == task_id@);
                        }
                    }
                    assert forall|a: int, b: int| 0 <= a < b < out@.len() implies #[trigger] out@[
                        a
                    ]@.step_order < #[trigger] out@[b]@.step_order by {
                        if b < prev.len() {
                            assert(out@[a] == prev[a] && out@[b] == prev[b]);
                        } else {
                            assert(out@[a] == prev[a]);
                            let j = choose|j: int|
                                0 <= j < i && #[trigger] prev[a]@ == m[j] && m[j].task_id
                                    == task_id@;
                            assert(m[j].step_order < m[i as int].step_order);
                            assert(out@[b]@ == m[i as int]);
                        }
                    }
                }
            } else {
                proof {
                    reveal(Seq::filter);
                    assert(out@.map_values(|t: TaskStep| t@) =~= steps_of(taken1, task_id@));
                }
            }
            i = i + 1;
        }
        proof {
            assert(self.steps_model().take(n as int) =~= self.steps_model());
        }
        out
    }

    /// Appends exactly one entry holding the given level, message and
    /// time; every earlier entry is untouched, so the log is an append-only
    /// audit trail.
    pub fn append_log(&mut self, level: &str, msg: &str, now_ms: i64)
        requires
            old(self).wf(),
        ensures
            final(self).wf(),
            final(self).tasks_model() == old(self).tasks_model(),
            final(self).steps_model() == old(self).steps_model(),
            final(self).log_model() == old(self).log_model().push(
                LogEntryV { level: level@, msg: msg@, ts: now_ms },
            ),
    {
        self.log.push(
            LogEntry { level: String::from_str(level), msg: String::from_str(msg), ts: now_ms },
        );
        proof {
            assert(self.tasks_model() =~= old(self).tasks_model());
            assert(self.steps_model() =~= old(self).steps_model());
            assert(self.log_model() =~= old(self).log_model().push(
                LogEntryV { level: level@, msg: msg@, ts: now_ms },
            ));
        }
    }

    /// The whole audit log, oldest entry first.
    pub fn log_entries(&self) -> (r: Vec<LogEntry>)
        ensures
            r@.map_values(|e: LogEntry| e@) == self.log_model(),
    {
        let n = self.log.len();
        let mut out: Vec<LogEntry> = Vec::new();
        let mut i: usize = 0;
        while i < n
            invariant
                i <= n,
                n == self.log@.len(),
                out@.map_values(|e: LogEntry| e@) == self.log_model().take(i as int),
            decreases n - i,
        {
            let ghost prev = out@;
            out.push(self.log[i].clone());
            proof {
                assert(out@ == prev.push(out@[out@.len() - 1]));
                assert(out@[out@.len() - 1]@ == self.log_model()[i as int]);
                assert(out@.map_values(|e: LogEntry| e@) =~= prev.map_values(
                    |e: LogEntry| e@,
                ).push(self.log_model()[i as int]));
                assert(out@.map_values(|e: LogEntry| e@) =~= self.log_model().take(i as int + 1));
            }
            i = i + 1;
        }
        proof {
            assert(self.log_model().take(n as int) =~= self.log_model());
        }
        out
    }

    /// How many audit-log entries the store holds.
    pub fn log_count(&self) -> (r: usize)
        ensures
            r == self.log_model().len(),
    {
        self.log.len()
    }

    /// How many tasks the store holds.
    pub fn task_count(&self) -> (r: usize)
        ensures
            r == self.tasks_model().len(),
    {
        self.tasks.len()
    }
}

// ───────────────────────── laws ─────────────────────────

/// Inserting a task makes its id present, so a second insert of the same
/// id is refused by `insert_task`'s contract.
pub proof fn lemma_insert_makes_present(s: Seq<TaskV>, id: Seq<char>, input: Seq<char>, now: i64)
    ensures
        has_task(s.push(fresh_task(id, input, now)), id),
{
    let s2 = s.push(fresh_task(id, input, now));
    lemma_task_idx_spec(s2, id);
    if task_idx(s2, id) == -1 {
        assert(s2[s.len() as int].task_id == id);
    }
}

/// After an update, the task reads back with exactly the updated status and
/// result and its other fields unchanged: `get_task` reflects the most
/// recent `update_task_status` write.
pub proof fn lemma_get_reflects_update(
    s: Seq<TaskV>,
    id: Seq<char>,
    status: Seq<char>,
    result_json: Option<Seq<char>>,
    now: i64,
)
    requires
        has_task(s, id),
    ensures
        has_task(spec_update_task(s, id, status, result_json, now), id),
        task_at(spec_update_task(s, id, status, result_json, now), id) == (TaskV {
            status,
            result_json,
            updated_at: now,
            ..task_at(s, id)
        }),
{
    let i = task_idx(s, id);
    lemma_task_idx_spec(s, id);
    let s2 = spec_update_task(s, id, status, result_json, now);
    assert(s2[i].task_id == id);
    assert(forall|j: int| 0 <= j < i ==> s2[j] == s[j]);
    lemma_task_idx_first(s2, id, i);
}

/// Under a monotone clock the audit fields stay ordered: an update stamped
/// at or after the task's creation never changes the creation time, and
/// the read-back shows `updated_at >= created_at`.
pub proof fn lemma_update_keeps_creation_time(
    s: Seq<TaskV>,
    id: Seq<char>,
    status: Seq<char>,
    result_json: Option<Seq<char>>,
    now: i64,
)
    requires
        has_task(s, id),
        now >= task_at(s, id).created_at,
    ensures
        task_at(spec_update_task(s, id, status, result_json, now), id).created_at == task_at(
            s,
            id,
        ).created_at,
        task_at(spec_update_task(s, id, status, result_json, now), id).updated_at >= task_at(
            spec_update_task(s, id, status, result_json, now),
            id,
        ).created_at,
{
    lemma_get_reflects_update(s, id, status, result_json, now);
}

/// Inserting with a clock value at or past every stored creation time
/// keeps the store chronological.
pub proof fn lemma_insert_keeps_chronological(s: Seq<TaskV>, t: TaskV)
    requires
        chronological(s),
        forall|i: int| 0 <= i < s.len() ==> (#[trigger] s[i]).created_at <= t.created_at,
    ensures
        chronological(s.push(t)),
{
    let s2 = s.push(t);
    assert forall|i: int, j: int| 0 <= i < j < s2.len() implies (#[trigger] s2[i]).created_at <= (
    #[trigger] s2[j]).created_at by {
        if j < s.len() {
            assert(s2[i] == s[i] && s2[j] == s[j]);
        } else {
            assert(s2[i] == s[i] && s2[j] == t);
        }
    }
}

/// A status update never touches any creation time, so it keeps the store
/// chronological.
pub proof fn lemma_update_keeps_chronological(
    s: Seq<TaskV>,
    id: Seq<char>,
    status: Seq<char>,
    result_json: Option<Seq<char>>,
    now: i64,
)
    requires
        chronological(s),
    ensures
        chronological(spec_update_task(s, id, status, result_json, now)),
{
    let s2 = spec_update_task(s, id, status, result_json, now);
    lemma_task_idx_spec(s, id);
    assert(forall|i: int| 0 <= i < s2.len() ==> (#[trigger] s2[i]).created_at == s[i].created_at);
}

} // verus!
