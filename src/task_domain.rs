//! Task records, their dependency-gated readiness, and the lifecycle
//! transitions (create, update, run, retry, cancel, archive, delete).
//!
//! Times are epoch milliseconds supplied by the caller.
use vstd::prelude::*;

use crate::errors::{ApiError, DetailValue, RpcErrorCode};
use crate::text::{decimal, hex, lemma_pad4_hex_injective, pad4, push_decimal, push_hex4, str_eq};

verus! {

/// The lifecycle status of a task.
#[derive(Debug, Clone, Copy, PartialEq, Eq, Structural)]
pub enum TaskStatus {
    Open,
    Pending,
    Running,
    Closed,
    Failed,
}

impl TaskStatus {
    pub open spec fn spec_is_terminal(self) -> bool {
        self == TaskStatus::Closed || self == TaskStatus::Failed
    }

    pub open spec fn spec_is_queued(self) -> bool {
        self == TaskStatus::Pending || self == TaskStatus::Running
    }

    pub open spec fn spec_name(self) -> Seq<char> {
        match self {
            TaskStatus::Open => "open"@,
            TaskStatus::Pending => "pending"@,
            TaskStatus::Running => "running"@,
            TaskStatus::Closed => "closed"@,
            TaskStatus::Failed => "failed"@,
        }
    }

    /// Closed and failed are terminal.
    pub fn is_terminal(self) -> (r: bool)
        ensures
            r == self.spec_is_terminal(),
    {
        match self {
            TaskStatus::Closed | TaskStatus::Failed => true,
            _ => false,
        }
    }

    /// Pending and running tasks sit in the run queue.
    pub fn is_queued(self) -> (r: bool)
        ensures
            r == self.spec_is_queued(),
    {
        match self {
            TaskStatus::Pending | TaskStatus::Running => true,
            _ => false,
        }
    }

    pub fn as_str(self) -> (r: &'static str)
        ensures
            r@ == self.spec_name(),
    {
        match self {
            TaskStatus::Open => "open",
            TaskStatus::Pending => "pending",
            TaskStatus::Running => "running",
            TaskStatus::Closed => "closed",
            TaskStatus::Failed => "failed",
        }
    }

    /// The status with the given wire name, if any.
    pub fn parse(s: &str) -> (r: Option<TaskStatus>)
        ensures
            r matches Some(t) ==> t.spec_name() == s@,
            r is None ==> forall|t: TaskStatus| t.spec_name() != s@,
    {
        let all = [
            TaskStatus::Open,
            TaskStatus::Pending,
            TaskStatus::Running,
            TaskStatus::Closed,
            TaskStatus::Failed,
        ];
        let mut i: usize = 0;
        while i < 5
            invariant
                0 <= i <= 5,
                all@ == seq![
                    TaskStatus::Open,
                    TaskStatus::Pending,
                    TaskStatus::Running,
                    TaskStatus::Closed,
                    TaskStatus::Failed,
                ],
                forall|j: int| 0 <= j < i ==> all@[j].spec_name() != s@,
            decreases 5 - i,
        {
            if crate::text::str_eq(all[i].as_str(), s) {
                return Some(all[i]);
            }
            i = i + 1;
        }
        proof {
            assert forall|t: TaskStatus| t.spec_name() != s@ by {
                match t {
                    TaskStatus::Open => assert(all@[0] == t),
                    TaskStatus::Pending => assert(all@[1] == t),
                    TaskStatus::Running => assert(all@[2] == t),
                    TaskStatus::Closed => assert(all@[3] == t),
                    TaskStatus::Failed => assert(all@[4] == t),
                }
            }
        }
        None
    }
}

/// One task.
#[derive(Debug, Clone)]
pub struct TaskRecord {
    pub id: String,
    pub title: String,
    pub status: TaskStatus,
    pub priority: u8,
    pub blocked_by: Option<String>,
    pub archived_at: Option<u64>,
    pub queued_task_id: Option<String>,
    pub merge_loop_prompt: Option<String>,
    pub created_at: u64,
    pub updated_at: u64,
    pub completed_at: Option<u64>,
    pub error_message: Option<String>,
}

/// What `task.create` asks for.
#[derive(Debug, Clone)]
pub struct TaskCreateParams {
    pub id: String,
    pub title: String,
    pub status: Option<TaskStatus>,
    pub priority: Option<u8>,
    pub blocked_by: Option<String>,
    pub auto_execute: Option<bool>,
    pub merge_loop_prompt: Option<String>,
}

/// A partial patch of a task; `blocked_by: Some(None)` removes the blocker.
#[derive(Debug, Clone)]
pub struct TaskUpdateInput {
    pub id: String,
    pub title: Option<String>,
    pub status: Option<TaskStatus>,
    pub priority: Option<u8>,
    pub blocked_by: Option<Option<String>>,
}

/// What `task.list` filters by.
#[derive(Debug, Clone)]
pub struct TaskListParams {
    pub status: Option<TaskStatus>,
    pub include_archived: Option<bool>,
}

/// The answer to `task.run` and `task.retry`.
#[derive(Debug, Clone)]
pub struct TaskRunResult {
    pub success: bool,
    pub queued_task_id: String,
    pub task: Option<TaskRecord>,
}

/// The answer to `task.run_all`.
#[derive(Debug, Clone)]
pub struct TaskRunAllResult {
    pub enqueued: u64,
    pub errors: Vec<String>,
}

/// The answer to `task.status`.
#[derive(Debug, Clone)]
pub struct TaskStatusResult {
    pub is_queued: bool,
    pub queue_position: Option<u64>,
    pub runner_pid: Option<u32>,
}

/// The invariants that hold of every stored task.
pub open spec fn task_wf(t: TaskRecord) -> bool {
    &&& (t.error_message.is_some() ==> t.status == TaskStatus::Failed)
    &&& (t.status.spec_is_terminal() <==> t.completed_at.is_some())
    &&& (t.queued_task_id.is_some() <==> t.status.spec_is_queued())
    &&& 1 <= t.priority <= 5
}

/// A task whose state releases the tasks that it blocks.
pub open spec fn unblocks(t: TaskRecord) -> bool {
    t.status == TaskStatus::Closed || t.archived_at.is_some()
}

/// Whether `t` is ready to run among `all`.
pub open spec fn is_ready(t: TaskRecord, all: Seq<TaskRecord>) -> bool {
    &&& t.status == TaskStatus::Open
    &&& t.archived_at.is_none()
    &&& match t.blocked_by {
        None => true,
        Some(b) => exists|j: int|
            0 <= j < all.len() && (#[trigger] all[j]).id@ == b@ && unblocks(all[j]),
    }
}

pub open spec fn ready_pred(all: Seq<TaskRecord>) -> spec_fn(TaskRecord) -> bool {
    |t: TaskRecord| is_ready(t, all)
}

pub open spec fn list_pred(status: Option<TaskStatus>, include_archived: bool) -> spec_fn(
    TaskRecord,
) -> bool {
    |t: TaskRecord|
        (status is None || status == Some(t.status)) && (include_archived || t.archived_at.is_none())
}

pub open spec fn clamp_priority(p: u8) -> u8 {
    if p < 1 {
        1
    } else if p > 5 {
        5
    } else {
        p
    }
}

/// The queue id minted from a clock reading and a counter value.
pub open spec fn queued_id(now: u64, counter: u64) -> Seq<char> {
    "queued-"@ + decimal(now as nat) + "-"@ + pad4(hex(counter as nat))
}

pub open spec fn next_counter(c: u64) -> u64 {
    if c == u64::MAX {
        c
    } else {
        (c + 1) as u64
    }
}

/// `t` after its status is set to `s` at time `now`.
pub open spec fn with_status(t: TaskRecord, s: TaskStatus, now: u64) -> TaskRecord {
    TaskRecord {
        status: s,
        updated_at: now,
        completed_at: if s.spec_is_terminal() {
            Some(now)
        } else {
            None
        },
        queued_task_id: if s.spec_is_queued() && !s.spec_is_terminal() {
            t.queued_task_id
        } else {
            None
        },
        error_message: if s == TaskStatus::Failed {
            t.error_message
        } else {
            None
        },
        ..t
    }
}

/// `t` after `input` is applied at time `now`.
pub open spec fn patched(t: TaskRecord, input: TaskUpdateInput, now: u64) -> TaskRecord {
    let s = match input.status {
        Some(s) => with_status(t, s, now),
        None => t,
    };
    TaskRecord {
        title: match input.title {
            Some(x) => x,
            None => s.title,
        },
        priority: match input.priority {
            Some(p) => clamp_priority(p),
            None => s.priority,
        },
        blocked_by: match input.blocked_by {
            Some(b) => b,
            None => s.blocked_by,
        },
        updated_at: now,
        ..s
    }
}

/// Whether an update sets a pending or running status on a task that holds
/// no queue id, so that one is minted.
pub open spec fn needs_queue_id(t: TaskRecord, input: TaskUpdateInput) -> bool {
    match input.status {
        Some(s) => s.spec_is_queued() && t.queued_task_id is None,
        None => false,
    }
}

/// `t` after it is put in the run queue under `qid` at time `now`.
pub open spec fn enqueued(t: TaskRecord, qid: String, now: u64) -> TaskRecord {
    TaskRecord {
        status: TaskStatus::Pending,
        queued_task_id: Some(qid),
        completed_at: None,
        error_message: None,
        updated_at: now,
        ..t
    }
}

/// `t` reset to open by a retry, before it is queued again.
pub open spec fn reopened(t: TaskRecord, now: u64) -> TaskRecord {
    TaskRecord {
        status: TaskStatus::Open,
        queued_task_id: None,
        completed_at: None,
        error_message: None,
        updated_at: now,
        ..t
    }
}

/// `t` cancelled at time `now`, with `msg` as its error message.
pub open spec fn cancelled(t: TaskRecord, msg: String, now: u64) -> TaskRecord {
    TaskRecord {
        status: TaskStatus::Failed,
        completed_at: Some(now),
        updated_at: now,
        error_message: Some(msg),
        queued_task_id: None,
        ..t
    }
}

/// `t` with its archive stamp set to `at`.
pub open spec fn with_archive(t: TaskRecord, at: Option<u64>, now: u64) -> TaskRecord {
    TaskRecord { archived_at: at, updated_at: now, ..t }
}

/// The status that `task.create` asks for.
pub open spec fn create_status(p: TaskCreateParams) -> TaskStatus {
    match p.status {
        Some(s) => s,
        None => TaskStatus::Open,
    }
}

/// Whether `task.create` asks to run the task at once.
pub open spec fn create_auto(p: TaskCreateParams) -> bool {
    match p.auto_execute {
        Some(b) => b,
        None => true,
    }
}

/// Whether a task may be put in the run queue.
pub open spec fn runnable(t: TaskRecord) -> bool {
    t.archived_at.is_none() && !t.status.spec_is_queued()
}

/// The record that `task.create` stores before any run.
pub open spec fn created_record(p: TaskCreateParams, now: u64) -> TaskRecord {
    let status = match p.status {
        Some(s) => s,
        None => TaskStatus::Open,
    };
    TaskRecord {
        id: p.id,
        title: p.title,
        status,
        priority: clamp_priority(
            match p.priority {
                Some(x) => x,
                None => 2,
            },
        ),
        blocked_by: p.blocked_by,
        archived_at: None,
        queued_task_id: None,
        merge_loop_prompt: p.merge_loop_prompt,
        created_at: now,
        updated_at: now,
        completed_at: if status.spec_is_terminal() {
            Some(now)
        } else {
            None
        },
        error_message: None,
    }
}

/// Whether the task with id `id` comes before position `k` in the queue order:
/// queued tasks ordered by last update, ties by position in the store.
pub open spec fn queued_before(all: Seq<TaskRecord>, j: int, k: int) -> bool {
    &&& all[j].queued_task_id.is_some()
    &&& all[j].status.spec_is_queued()
    &&& (all[j].updated_at < all[k].updated_at || (all[j].updated_at == all[k].updated_at && j < k))
}

/// How many queued tasks among the first `n` come before position `k`.
pub open spec fn count_before(all: Seq<TaskRecord>, n: int, k: int) -> nat
    decreases n,
{
    if n <= 0 {
        0
    } else if queued_before(all, n - 1, k) {
        count_before(all, n - 1, k) + 1
    } else {
        count_before(all, n - 1, k)
    }
}

fn clone_opt(o: &Option<String>) -> (r: Option<String>)
    ensures
        r == *o,
{
    match o {
        Some(s) => Some(s.clone()),
        None => None,
    }
}

impl TaskRecord {
    /// A copy of the record.
    pub fn copy(&self) -> (r: TaskRecord)
        ensures
            r == *self,
    {
        TaskRecord {
            id: self.id.clone(),
            title: self.title.clone(),
            status: self.status,
            priority: self.priority,
            blocked_by: clone_opt(&self.blocked_by),
            archived_at: self.archived_at,
            queued_task_id: clone_opt(&self.queued_task_id),
            merge_loop_prompt: clone_opt(&self.merge_loop_prompt),
            created_at: self.created_at,
            updated_at: self.updated_at,
            completed_at: self.completed_at,
            error_message: clone_opt(&self.error_message),
        }
    }
}

fn clamp(p: u8) -> (r: u8)
    ensures
        r == clamp_priority(p),
{
    if p < 1 {
        1
    } else if p > 5 {
        5
    } else {
        p
    }
}

/// `prefix` + `id` + `suffix`, for error messages.
fn message_with(prefix: &str, id: &str, suffix: &str) -> (r: String)
    ensures
        r@ == prefix@ + id@ + suffix@,
{
    let mut m = prefix.to_owned();
    m.append(id);
    m.append(suffix);
    m
}

fn task_not_found_error(id: &str) -> (r: ApiError)
    ensures
        r.has_code(RpcErrorCode::TaskNotFound),
        r.detail_text("taskId"@) == Some(id@),
{
    ApiError::task_not_found(message_with("Task with id '", id, "' not found")).with_text("taskId", id)
}

proof fn lemma_detail_keys_distinct()
    ensures
        "status"@ != "taskId"@,
        "allowedStatuses"@ != "taskId"@,
        "allowedStatuses"@ != "status"@,
        "autoExecute"@ != "taskId"@,
        "autoExecute"@ != "status"@,
{
    reveal_strlit("status");
    reveal_strlit("taskId");
    reveal_strlit("allowedStatuses");
    reveal_strlit("autoExecute");
    assert("status"@[0] != "taskId"@[0]);
    assert("allowedStatuses"@.len() != "taskId"@.len());
    assert("allowedStatuses"@.len() != "status"@.len());
    assert("autoExecute"@.len() != "taskId"@.len());
    assert("autoExecute"@.len() != "status"@.len());
}

/// A precondition failure naming the task and its status.
fn task_state_error(message: String, id: &str, status: TaskStatus) -> (r: ApiError)
    ensures
        r.has_code(RpcErrorCode::PreconditionFailed),
        r.detail_text("taskId"@) == Some(id@),
        r.detail_text("status"@) == Some(status.spec_name()),
{
    let e = ApiError::precondition_failed(message).with_text("taskId", id);
    let e2 = e.with_text("status", status.as_str());
    proof {
        lemma_detail_keys_distinct();
    }
    e2
}

/// The task store: records ordered by creation time, with unique ids.
pub struct TaskDomain {
    tasks: Vec<TaskRecord>,
    queue_counter: u64,
}

impl TaskDomain {
    pub closed spec fn spec_tasks(&self) -> Seq<TaskRecord> {
        self.tasks@
    }

    pub closed spec fn spec_counter(&self) -> u64 {
        self.queue_counter
    }

    /// The store's invariant.
    pub open spec fn wf(&self) -> bool {
        let s = self.spec_tasks();
        &&& forall|i: int| 0 <= i < s.len() ==> task_wf(#[trigger] s[i])
        &&& forall|i: int, j: int| 0 <= i < j < s.len() ==> (#[trigger] s[i]).id@ != (#[trigger] s[j]).id@
        &&& forall|i: int, j: int|
            0 <= i < j < s.len() ==> (#[trigger] s[i]).created_at <= (#[trigger] s[j]).created_at
    }

    /// The ids of the stored tasks, in store order.
    pub open spec fn ids(&self) -> Seq<Seq<char>> {
        self.spec_tasks().map_values(|t: TaskRecord| t.id@)
    }

    /// The position of the task with id `id` (meaningful when there is one).
    pub open spec fn index_of(&self, id: Seq<char>) -> int {
        choose|k: int| 0 <= k < self.ids().len() && self.ids()[k] == id
    }

    pub open spec fn contains(&self, id: Seq<char>) -> bool {
        self.ids().contains(id)
    }

    /// The stored task with id `id` (meaningful when there is one).
    pub open spec fn task(&self, id: Seq<char>) -> TaskRecord {
        self.spec_tasks()[self.index_of(id)]
    }

    /// This store with the task at `id` replaced by `t`.
    pub open spec fn replaced(&self, id: Seq<char>, t: TaskRecord) -> Seq<TaskRecord> {
        self.spec_tasks().update(self.index_of(id), t)
    }

    pub fn new() -> (r: TaskDomain)
        ensures
            r.wf(),
            r.spec_tasks().len() == 0,
            r.spec_counter() == 0,
    {
        TaskDomain { tasks: Vec::new(), queue_counter: 0 }
    }

    /// The stored tasks, in creation order.
    pub fn tasks(&self) -> (r: &Vec<TaskRecord>)
        ensures
            r@ == self.spec_tasks(),
    {
        &self.tasks
    }

    /// How many queue ids have been minted.
    pub fn queue_counter(&self) -> (r: u64)
        ensures
            r == self.spec_counter(),
    {
        self.queue_counter
    }

    fn find(&self, id: &str) -> (r: Option<usize>)
        requires
            self.wf(),
        ensures
            r matches Some(k) ==> k < self.spec_tasks().len() && k == self.index_of(id@)
                && self.contains(id@) && self.spec_tasks()[k as int].id@ == id@,
            r is None ==> !self.contains(id@),
    {
        let mut i: usize = 0;
        while i < self.tasks.len()
            invariant
                self.wf(),
                0 <= i <= self.tasks@.len(),
                forall|j: int| 0 <= j < i ==> self.tasks@[j].id@ != id@,
            decreases self.tasks@.len() - i,
        {
            if crate::text::str_eq(self.tasks[i].id.as_str(), id) {
                proof {
                    assert(self.ids()[i as int] == id@);
                    let k = self.index_of(id@);
                    assert(self.spec_tasks()[k].id@ == id@);
                    if k != i {
                        if k < i {
                        } else {
                            assert(self.spec_tasks()[i as int].id@ != self.spec_tasks()[k].id@);
                        }
                    }
                }
                return Some(i);
            }
            i = i + 1;
        }
        None
    }

    /// The task with id `id`.
    pub fn get(&self, id: &str) -> (r: Result<TaskRecord, ApiError>)
        requires
            self.wf(),
        ensures
            r matches Ok(t) ==> self.contains(id@) && t == self.task(id@),
            r matches Err(e) ==> !self.contains(id@) && e.has_code(RpcErrorCode::TaskNotFound)
                && e.detail_text("taskId"@) == Some(id@),
    {
        match self.find(id) {
            Some(k) => Ok(self.tasks[k].copy()),
            None => Err(task_not_found_error(id)),
        }
    }

    /// The tasks with the given status (any, if none), archived ones only on
    /// request, in creation order.
    pub fn list(&self, params: TaskListParams) -> (r: Vec<TaskRecord>)
        ensures
            r@ == self.spec_tasks().filter(
                list_pred(
                    params.status,
                    match params.include_archived {
                        Some(b) => b,
                        None => false,
                    },
                ),
            ),
    {
        let include_archived = match params.include_archived {
            Some(b) => b,
            None => false,
        };
        let ghost pred = list_pred(params.status, include_archived);
        let mut out: Vec<TaskRecord> = Vec::new();
        let mut i: usize = 0;
        while i < self.tasks.len()
            invariant
                0 <= i <= self.tasks@.len(),
                pred == list_pred(params.status, include_archived),
                out@ == self.tasks@.subrange(0, i as int).filter(pred),
            decreases self.tasks@.len() - i,
        {
            let t = &self.tasks[i];
            let status_ok = match params.status {
                Some(s) => s == t.status,
                None => true,
            };
            if status_ok && (include_archived || t.archived_at.is_none()) {
                out.push(t.copy());
            }
            proof {
                reveal(Seq::filter);
                assert(self.tasks@.subrange(0, i + 1).drop_last() =~= self.tasks@.subrange(
                    0,
                    i as int,
                ));
            }
            i = i + 1;
        }
        assert(self.tasks@.subrange(0, i as int) =~= self.tasks@);
        out
    }

    fn unblocks_at(&self, id: &str) -> (r: bool)
        requires
            self.wf(),
        ensures
            r == exists|j: int|
                0 <= j < self.spec_tasks().len() && (#[trigger] self.spec_tasks()[j]).id@ == id@
                    && unblocks(self.spec_tasks()[j]),
    {
        match self.find(id) {
            Some(k) => {
                let t = &self.tasks[k];
                let r = t.status == TaskStatus::Closed || t.archived_at.is_some();
                proof {
                    if !r {
                        assert forall|j: int|
                            0 <= j < self.spec_tasks().len() && (#[trigger] self.spec_tasks()[j]).id@
                                == id@ implies !unblocks(self.spec_tasks()[j]) by {
                            if j < k {
                                assert(self.spec_tasks()[j].id@ != self.spec_tasks()[k as int].id@);
                            } else if j > k {
                                assert(self.spec_tasks()[k as int].id@ != self.spec_tasks()[j].id@);
                            }
                        }
                    }
                }
                r
            },
            None => {
                proof {
                    assert forall|j: int|
                        0 <= j < self.spec_tasks().len() && (#[trigger] self.spec_tasks()[j]).id@
                            == id@ implies !unblocks(self.spec_tasks()[j]) by {
                        assert(self.ids()[j] == id@);
                    }
                }
                false
            },
        }
    }

    fn ready_at(&self, i: usize) -> (r: bool)
        requires
            self.wf(),
            i < self.spec_tasks().len(),
        ensures
            r == is_ready(self.spec_tasks()[i as int], self.spec_tasks()),
    {
        let t = &self.tasks[i];
        if t.status != TaskStatus::Open || t.archived_at.is_some() {
            return false;
        }
        match &t.blocked_by {
            None => true,
            Some(b) => self.unblocks_at(b.as_str()),
        }
    }

    /// The tasks that are ready to run, in creation order.
    pub fn ready(&self) -> (r: Vec<TaskRecord>)
        requires
            self.wf(),
        ensures
            r@ == self.spec_tasks().filter(ready_pred(self.spec_tasks())),
            forall|a: int, b: int|
                0 <= a < b < r@.len() ==> (#[trigger] r@[a]).created_at <= (#[trigger] r@[b]).created_at,
    {
        let ghost all = self.tasks@;
        let ghost pred = ready_pred(all);
        let mut out: Vec<TaskRecord> = Vec::new();
        let mut i: usize = 0;
        let ghost mut last: int = -1;
        while i < self.tasks.len()
            invariant
                self.wf(),
                all == self.spec_tasks(),
                0 <= i <= all.len(),
                pred == ready_pred(all),
                out@ == all.subrange(0, i as int).filter(pred),
                -1 <= last < i,
                out@.len() > 0 ==> last >= 0 && out@.last() == all[last],
                forall|a: int, b: int|
                    0 <= a < b < out@.len() ==> (#[trigger] out@[a]).created_at <= (
                    #[trigger] out@[b]).created_at,
                forall|a: int| 0 <= a < out@.len() ==> (#[trigger] out@[a]).created_at <= out@.last().created_at,
            decreases all.len() - i,
        {
            let is_r = self.ready_at(i);
            if is_r {
                let t = self.tasks[i].copy();
                proof {
                    if out@.len() > 0 {
                        assert(all[last].created_at <= all[i as int].created_at);
                    }
                }
                out.push(t);
                proof {
                    last = i as int;
                }
            }
            proof {
                reveal(Seq::filter);
                assert(all.subrange(0, i + 1).drop_last() =~= all.subrange(0, i as int));
            }
            i = i + 1;
        }
        assert(all.subrange(0, i as int) =~= all);
        out
    }

    /// In a well-formed store, the task at position `k` is the one its id names.
    pub proof fn lemma_index_of(&self, k: int)
        requires
            self.wf(),
            0 <= k < self.spec_tasks().len(),
        ensures
            self.contains(self.spec_tasks()[k].id@),
            self.index_of(self.spec_tasks()[k].id@) == k,
    {
        let id = self.spec_tasks()[k].id@;
        assert(self.ids()[k] == id);
        let c = self.index_of(id);
        if c < k {
            assert(self.spec_tasks()[c].id@ != self.spec_tasks()[k].id@);
        } else if c > k {
            assert(self.spec_tasks()[k].id@ != self.spec_tasks()[c].id@);
        }
    }

    /// Replaces the task at `k` by one with the same id and creation time.
    fn put(&mut self, k: usize, t: TaskRecord)
        requires
            old(self).wf(),
            k < old(self).spec_tasks().len(),
            t.id@ == old(self).spec_tasks()[k as int].id@,
            t.created_at == old(self).spec_tasks()[k as int].created_at,
            task_wf(t),
        ensures
            final(self).wf(),
            final(self).spec_tasks() == old(self).spec_tasks().update(k as int, t),
            final(self).spec_counter() == old(self).spec_counter(),
            forall|id: Seq<char>| #[trigger] final(self).index_of(id) == old(self).index_of(id),
            forall|id: Seq<char>| #[trigger] final(self).contains(id) == old(self).contains(id),
    {
        let ghost before = self.tasks@;
        self.tasks.set(k, t);
        proof {
            let after = self.tasks@;
            assert forall|i: int, j: int| 0 <= i < j < after.len() implies (#[trigger] after[i]).id@
                != (#[trigger] after[j]).id@ by {
                assert(before[i].id@ != before[j].id@);
            }
            assert forall|i: int, j: int| 0 <= i < j < after.len() implies (#[trigger] after[i]).created_at
                <= (#[trigger] after[j]).created_at by {
                assert(before[i].created_at <= before[j].created_at);
            }
            assert(self.ids() =~= old(self).ids());
        }
    }

    fn next_queued_task_id(&mut self, now: u64) -> (r: String)
        ensures
            final(self).spec_counter() == next_counter(old(self).spec_counter()),
            final(self).spec_tasks() == old(self).spec_tasks(),
            r@ == queued_id(now, final(self).spec_counter()),
    {
        self.queue_counter = if self.queue_counter == u64::MAX {
            u64::MAX
        } else {
            self.queue_counter + 1
        };
        let mut r = "queued-".to_owned();
        push_decimal(&mut r, now);
        r.append("-");
        push_hex4(&mut r, self.queue_counter);
        r
    }

    /// Puts the task in the run queue; the counter advances in every case.
    fn queue_task(&mut self, id: &str, now: u64) -> (r: Result<String, ApiError>)
        requires
            old(self).wf(),
        ensures
            final(self).wf(),
            r is Ok ==> final(self).spec_counter() == next_counter(old(self).spec_counter()),
            r is Err ==> final(self).spec_counter() == old(self).spec_counter(),
            !old(self).contains(id@) ==> (r matches Err(e) && e.has_code(RpcErrorCode::TaskNotFound)
                && final(self).spec_tasks() == old(self).spec_tasks()),
            old(self).contains(id@) && !runnable(old(self).task(id@)) ==> (r matches Err(e) && e.has_code(RpcErrorCode::PreconditionFailed) && final(self).spec_tasks() == old(self).spec_tasks()),
            old(self).contains(id@) && runnable(old(self).task(id@)) ==> (r matches Ok(q) && q@
                == queued_id(now, final(self).spec_counter()) && final(self).spec_tasks()
                == old(self).replaced(id@, enqueued(old(self).task(id@), q, now))),
            forall|x: Seq<char>| #[trigger] final(self).index_of(x) == old(self).index_of(x),
            forall|x: Seq<char>| #[trigger] final(self).contains(x) == old(self).contains(x),
    {
        let k = match self.find(id) {
            Some(k) => k,
            None => return Err(task_not_found_error(id)),
        };
        let t = &self.tasks[k];
        if t.archived_at.is_some() {
            return Err(
                ApiError::precondition_failed("Cannot run archived task".to_owned()).with_text("taskId", id),
            );
        }
        if t.status.is_queued() {
            return Err(task_state_error("Task is already queued or running".to_owned(), id, t.status));
        }
        let mut nt = t.copy();
        let q = self.next_queued_task_id(now);
        assert(forall|x: Seq<char>| #[trigger] self.index_of(x) == old(self).index_of(x));
        nt.status = TaskStatus::Pending;
        nt.queued_task_id = Some(q.clone());
        nt.completed_at = None;
        nt.error_message = None;
        nt.updated_at = now;
        self.put(k, nt);
        Ok(q)
    }

    /// Queues the task with id `id` for running.
    pub fn run(&mut self, id: &str, now: u64) -> (r: Result<TaskRunResult, ApiError>)
        requires
            old(self).wf(),
        ensures
            final(self).wf(),
            r is Ok ==> final(self).spec_counter() == next_counter(old(self).spec_counter()),
            r is Err ==> final(self).spec_counter() == old(self).spec_counter(),
            !old(self).contains(id@) ==> (r matches Err(e) && e.has_code(RpcErrorCode::TaskNotFound)
                && final(self).spec_tasks() == old(self).spec_tasks()),
            old(self).contains(id@) && !runnable(old(self).task(id@)) ==> (r matches Err(e) && e.has_code(RpcErrorCode::PreconditionFailed) && final(self).spec_tasks() == old(self).spec_tasks()),
            old(self).contains(id@) && runnable(old(self).task(id@)) ==> (r matches Ok(res) && res.success
                && res.queued_task_id@ == queued_id(now, final(self).spec_counter()) && res.task
                == Some(enqueued(old(self).task(id@), res.queued_task_id, now)) && final(self).spec_tasks()
                == old(self).replaced(id@, enqueued(old(self).task(id@), res.queued_task_id, now))),
    {
        let q = self.queue_task(id, now)?;
        let ghost k = old(self).index_of(id@);
        proof {
            assert(self.spec_tasks()[k] == enqueued(old(self).task(id@), q, now));
            self.lemma_index_of(k);
        }
        let t = self.get(id)?;
        Ok(TaskRunResult { success: true, queued_task_id: q, task: Some(t) })
    }

    fn insert_position(&self, created: u64) -> (k: usize)
        requires
            self.wf(),
        ensures
            k <= self.spec_tasks().len(),
            forall|j: int| 0 <= j < k ==> (#[trigger] self.spec_tasks()[j]).created_at <= created,
            forall|j: int|
                k <= j < self.spec_tasks().len() ==> (#[trigger] self.spec_tasks()[j]).created_at
                    > created,
    {
        let mut i: usize = 0;
        while i < self.tasks.len() && self.tasks[i].created_at <= created
            invariant
                self.wf(),
                0 <= i <= self.tasks@.len(),
                forall|j: int| 0 <= j < i ==> (#[trigger] self.tasks@[j]).created_at <= created,
            decreases self.tasks@.len() - i,
        {
            i = i + 1;
        }
        proof {
            assert forall|j: int| i <= j < self.spec_tasks().len() implies (
            #[trigger] self.spec_tasks()[j]).created_at > created by {
                if j > i {
                    assert(self.spec_tasks()[i as int].created_at <= self.spec_tasks()[j].created_at);
                }
            }
        }
        i
    }

    fn insert_at(&mut self, k: usize, t: TaskRecord)
        requires
            old(self).wf(),
            k <= old(self).spec_tasks().len(),
            !old(self).contains(t.id@),
            task_wf(t),
            forall|j: int| 0 <= j < k ==> (#[trigger] old(self).spec_tasks()[j]).created_at <= t.created_at,
            forall|j: int|
                k <= j < old(self).spec_tasks().len() ==> (#[trigger] old(self).spec_tasks()[j]).created_at
                    > t.created_at,
        ensures
            final(self).wf(),
            final(self).spec_tasks() == old(self).spec_tasks().insert(k as int, t),
            final(self).spec_counter() == old(self).spec_counter(),
    {
        let ghost before = self.tasks@;
        self.tasks.insert(k, t);
        proof {
            let after = self.tasks@;
            assert forall|j: int| 0 <= j < before.len() implies before[j].id@ != t.id@ by {
                assert(old(self).ids()[j] == before[j].id@);
            }
            assert forall|i: int| 0 <= i < after.len() implies task_wf(#[trigger] after[i]) by {
                if i < k {
                    assert(after[i] == before[i]);
                } else if i > k {
                    assert(after[i] == before[i - 1]);
                }
            }
            assert forall|i: int, j: int| 0 <= i < j < after.len() implies (#[trigger] after[i]).id@
                != (#[trigger] after[j]).id@ by {
                if j < k {
                } else if j == k {
                    assert(after[i] == before[i]);
                } else if i < k {
                    assert(after[i] == before[i]);
                    assert(after[j] == before[j - 1]);
                } else if i == k {
                    assert(after[j] == before[j - 1]);
                } else {
                    assert(after[i] == before[i - 1]);
                    assert(after[j] == before[j - 1]);
                }
            }
            assert forall|i: int, j: int| 0 <= i < j < after.len() implies (#[trigger] after[i]).created_at
                <= (#[trigger] after[j]).created_at by {
                if j < k {
                } else if j == k {
                    assert(after[i] == before[i]);
                } else if i < k {
                    assert(after[i] == before[i]);
                    assert(after[j] == before[j - 1]);
                } else if i == k {
                    assert(after[j] == before[j - 1]);
                } else {
                    assert(after[i] == before[i - 1]);
                    assert(after[j] == before[j - 1]);
                }
            }
        }
    }

    /// Adds a task; unless asked otherwise, an open task without a blocker is
    /// queued at once.
    pub fn create(&mut self, params: TaskCreateParams, now: u64) -> (r: Result<TaskRecord, ApiError>)
        requires
            old(self).wf(),
        ensures
            final(self).wf(),
            old(self).contains(params.id@) ==> (r matches Err(e) && e.has_code(RpcErrorCode::Conflict)
                && e.detail_text("taskId"@) == Some(params.id@)
                && final(self).spec_tasks() == old(self).spec_tasks() && final(self).spec_counter()
                == old(self).spec_counter()),
            !old(self).contains(params.id@) && create_auto(params) && create_status(params)
                != TaskStatus::Open ==> (r matches Err(e) && e.has_code(RpcErrorCode::InvalidParams)
                && final(self).spec_tasks() == old(self).spec_tasks() && final(self).spec_counter()
                == old(self).spec_counter()),
            !old(self).contains(params.id@) && !(create_auto(params) && create_status(params)
                != TaskStatus::Open) ==> (r matches Ok(t) && exists|k: int|
                0 <= k <= old(self).spec_tasks().len() && final(self).spec_tasks() == old(self).spec_tasks().insert(k, t)),
            !old(self).contains(params.id@) && !create_auto(params) && !create_status(params).spec_is_queued() ==> (
            r matches Ok(t) && t == created_record(params, now) && final(self).spec_counter() == old(self).spec_counter()),
            !old(self).contains(params.id@) && !create_auto(params) && create_status(params).spec_is_queued() ==> (
            r matches Ok(t) && t.queued_task_id is Some && t == TaskRecord {
                queued_task_id: t.queued_task_id,
                ..created_record(params, now)
            } && t.queued_task_id.unwrap()@ == queued_id(now, final(self).spec_counter()) && final(self).spec_counter() == next_counter(old(self).spec_counter())),
            !old(self).contains(params.id@) && create_auto(params) && create_status(params)
                == TaskStatus::Open && params.blocked_by is Some ==> (r matches Ok(t) && t
                == created_record(params, now) && final(self).spec_counter() == old(self).spec_counter()),
            !old(self).contains(params.id@) && create_auto(params) && create_status(params)
                == TaskStatus::Open && params.blocked_by is None ==> (r matches Ok(t)
                && t.queued_task_id is Some && t == enqueued(
                created_record(params, now),
                t.queued_task_id.unwrap(),
                now,
            ) && t.queued_task_id.unwrap()@ == queued_id(now, final(self).spec_counter())
                && final(self).spec_counter() == next_counter(old(self).spec_counter())),
    {
        if self.find(params.id.as_str()).is_some() {
            return Err(
                ApiError::conflict(
                    message_with("Task with id '", params.id.as_str(), "' already exists"),
                ).with_text("taskId", params.id.as_str()),
            );
        }
        let status = match params.status {
            Some(s) => s,
            None => TaskStatus::Open,
        };
        let auto_execute = match params.auto_execute {
            Some(b) => b,
            None => true,
        };
        if auto_execute && status != TaskStatus::Open {
            let e = ApiError::invalid_params(
                "task.create autoExecute=true is only valid when status is 'open'".to_owned(),
            ).with_text("taskId", params.id.as_str());
            let e = e.with_text("status", status.as_str());
            return Err(e.with_detail("autoExecute", DetailValue::Flag(auto_execute)));
        }
        let run_now = auto_execute && params.blocked_by.is_none();
        let id = params.id.clone();
        let minted = if status.is_queued() {
            Some(self.next_queued_task_id(now))
        } else {
            None
        };
        assert(self.spec_tasks() == old(self).spec_tasks());
        let task = TaskRecord {
            id: params.id,
            title: params.title,
            status,
            priority: clamp(
                match params.priority {
                    Some(p) => p,
                    None => 2,
                },
            ),
            blocked_by: params.blocked_by,
            archived_at: None,
            queued_task_id: minted,
            merge_loop_prompt: params.merge_loop_prompt,
            created_at: now,
            updated_at: now,
            completed_at: if status.is_terminal() {
                Some(now)
            } else {
                None
            },
            error_message: None,
        };
        let ghost base = task;
        assert(base == TaskRecord { queued_task_id: base.queued_task_id, ..created_record(params, now) });
        let k = self.insert_position(now);
        self.insert_at(k, task);
        proof {
            self.lemma_index_of(k as int);
        }
        if run_now {
            let res = self.run(id.as_str(), now)?;
            proof {
                assert(self.spec_tasks() =~= old(self).spec_tasks().insert(
                    k as int,
                    enqueued(base, res.queued_task_id, now),
                ));
            }
            match res.task {
                Some(t) => Ok(t),
                None => Err(task_not_found_error(id.as_str())),
            }
        } else {
            let t = self.get(id.as_str());
            t
        }
    }

    fn transition_task(&mut self, id: &str, status: TaskStatus, now: u64) -> (r: Result<TaskRecord, ApiError>)
        requires
            old(self).wf(),
            !status.spec_is_queued(),
        ensures
            final(self).wf(),
            final(self).spec_counter() == old(self).spec_counter(),
            !old(self).contains(id@) ==> (r matches Err(e) && e.has_code(RpcErrorCode::TaskNotFound)
                && final(self).spec_tasks() == old(self).spec_tasks()),
            old(self).contains(id@) ==> (r matches Ok(t) && t == with_status(old(self).task(id@), status, now)
                && final(self).spec_tasks() == old(self).replaced(id@, t)),
    {
        let k = match self.find(id) {
            Some(k) => k,
            None => return Err(task_not_found_error(id)),
        };
        let mut nt = self.tasks[k].copy();
        nt.status = status;
        nt.updated_at = now;
        if status.is_terminal() {
            nt.completed_at = Some(now);
            nt.queued_task_id = None;
        } else {
            nt.completed_at = None;
            if !status.is_queued() {
                nt.queued_task_id = None;
            }
        }
        if status != TaskStatus::Failed {
            nt.error_message = None;
        }
        let out = nt.copy();
        self.put(k, nt);
        Ok(out)
    }

    /// Moves the task to `closed`.
    pub fn close(&mut self, id: &str, now: u64) -> (r: Result<TaskRecord, ApiError>)
        requires
            old(self).wf(),
        ensures
            final(self).wf(),
            final(self).spec_counter() == old(self).spec_counter(),
            !old(self).contains(id@) ==> (r matches Err(e) && e.has_code(RpcErrorCode::TaskNotFound)
                && final(self).spec_tasks() == old(self).spec_tasks()),
            old(self).contains(id@) ==> (r matches Ok(t) && t == with_status(
                old(self).task(id@),
                TaskStatus::Closed,
                now,
            ) && final(self).spec_tasks() == old(self).replaced(id@, t)),
    {
        self.transition_task(id, TaskStatus::Closed, now)
    }

    /// Applies a partial patch; a new status recomputes the derived fields.
    pub fn update(&mut self, input: TaskUpdateInput, now: u64) -> (r: Result<TaskRecord, ApiError>)
        requires
            old(self).wf(),
        ensures
            final(self).wf(),
            !old(self).contains(input.id@) ==> (r matches Err(e) && e.has_code(RpcErrorCode::TaskNotFound)
                && e.detail_text("taskId"@) == Some(input.id@) && final(self).spec_tasks() == old(self).spec_tasks()
                && final(self).spec_counter() == old(self).spec_counter()),
            old(self).contains(input.id@) && !needs_queue_id(old(self).task(input.id@), input) ==> (r matches Ok(t)
                && t == patched(old(self).task(input.id@), input, now) && final(self).spec_tasks() == old(self).replaced(input.id@, t) && final(self).spec_counter() == old(self).spec_counter()),
            old(self).contains(input.id@) && needs_queue_id(old(self).task(input.id@), input) ==> (r matches Ok(t)
                && t.queued_task_id is Some && t == TaskRecord {
                queued_task_id: t.queued_task_id,
                ..patched(old(self).task(input.id@), input, now)
            } && t.queued_task_id.unwrap()@ == queued_id(now, final(self).spec_counter())
                && final(self).spec_counter() == next_counter(old(self).spec_counter()) && final(self).spec_tasks()
                == old(self).replaced(input.id@, t)),
    {
        let k = match self.find(input.id.as_str()) {
            Some(k) => k,
            None => return Err(task_not_found_error(input.id.as_str())),
        };
        let needs = match input.status {
            Some(s) => s.is_queued() && self.tasks[k].queued_task_id.is_none(),
            None => false,
        };
        let minted = if needs {
            Some(self.next_queued_task_id(now))
        } else {
            None
        };
        assert(self.spec_tasks() == old(self).spec_tasks());
        let mut nt = self.tasks[k].copy();
        if let Some(status) = input.status {
            nt.status = status;
            nt.updated_at = now;
            if status.is_terminal() {
                nt.completed_at = Some(now);
                nt.queued_task_id = None;
            } else {
                nt.completed_at = None;
                if !status.is_queued() {
                    nt.queued_task_id = None;
                }
            }
            if status != TaskStatus::Failed {
                nt.error_message = None;
            }
        }
        if let Some(title) = input.title {
            nt.title = title;
        }
        if let Some(priority) = input.priority {
            nt.priority = clamp(priority);
        }
        if let Some(blocked_by) = input.blocked_by {
            nt.blocked_by = blocked_by;
        }
        nt.updated_at = now;
        if let Some(q) = minted {
            nt.queued_task_id = Some(q);
        }
        let out = nt.copy();
        self.put(k, nt);
        Ok(out)
    }

    fn set_archived(&mut self, id: &str, at: Option<u64>, now: u64) -> (r: Result<TaskRecord, ApiError>)
        requires
            old(self).wf(),
        ensures
            final(self).wf(),
            final(self).spec_counter() == old(self).spec_counter(),
            !old(self).contains(id@) ==> (r matches Err(e) && e.has_code(RpcErrorCode::TaskNotFound)
                && final(self).spec_tasks() == old(self).spec_tasks()),
            old(self).contains(id@) ==> (r matches Ok(t) && t == with_archive(old(self).task(id@), at, now)
                && final(self).spec_tasks() == old(self).replaced(id@, t)),
    {
        let k = match self.find(id) {
            Some(k) => k,
            None => return Err(task_not_found_error(id)),
        };
        let mut nt = self.tasks[k].copy();
        nt.archived_at = at;
        nt.updated_at = now;
        let out = nt.copy();
        self.put(k, nt);
        Ok(out)
    }

    /// Stamps the task as archived.
    pub fn archive(&mut self, id: &str, now: u64) -> (r: Result<TaskRecord, ApiError>)
        requires
            old(self).wf(),
        ensures
            final(self).wf(),
            final(self).spec_counter() == old(self).spec_counter(),
            !old(self).contains(id@) ==> (r matches Err(e) && e.has_code(RpcErrorCode::TaskNotFound)
                && final(self).spec_tasks() == old(self).spec_tasks()),
            old(self).contains(id@) ==> (r matches Ok(t) && t == with_archive(
                old(self).task(id@),
                Some(now),
                now,
            ) && final(self).spec_tasks() == old(self).replaced(id@, t)),
    {
        self.set_archived(id, Some(now), now)
    }

    /// Removes the archive stamp.
    pub fn unarchive(&mut self, id: &str, now: u64) -> (r: Result<TaskRecord, ApiError>)
        requires
            old(self).wf(),
        ensures
            final(self).wf(),
            final(self).spec_counter() == old(self).spec_counter(),
            !old(self).contains(id@) ==> (r matches Err(e) && e.has_code(RpcErrorCode::TaskNotFound)
                && final(self).spec_tasks() == old(self).spec_tasks()),
            old(self).contains(id@) ==> (r matches Ok(t) && t == with_archive(old(self).task(id@), None, now)
                && final(self).spec_tasks() == old(self).replaced(id@, t)),
    {
        self.set_archived(id, None, now)
    }

    /// Removes a task; only failed or closed tasks may go.
    pub fn delete(&mut self, id: &str) -> (r: Result<(), ApiError>)
        requires
            old(self).wf(),
        ensures
            final(self).wf(),
            final(self).spec_counter() == old(self).spec_counter(),
            !old(self).contains(id@) ==> (r matches Err(e) && e.has_code(RpcErrorCode::TaskNotFound)
                && final(self).spec_tasks() == old(self).spec_tasks()),
            old(self).contains(id@) && !old(self).task(id@).status.spec_is_terminal() ==> (r matches Err(
                e,
            ) && e.has_code(RpcErrorCode::PreconditionFailed) && e.detail_text("taskId"@) == Some(id@)
                && e.detail_text("status"@) == Some(old(self).task(id@).status.spec_name())
                && e.detail_list("allowedStatuses"@) == Some(seq!["failed"@, "closed"@])
                && final(self).spec_tasks() == old(self).spec_tasks()),
            old(self).contains(id@) && old(self).task(id@).status.spec_is_terminal() ==> r is Ok
                && final(self).spec_tasks() == old(self).spec_tasks().remove(old(self).index_of(id@)),
    {
        let k = match self.find(id) {
            Some(k) => k,
            None => return Err(task_not_found_error(id)),
        };
        if !self.tasks[k].status.is_terminal() {
            let mut m = "Cannot delete task in '".to_owned();
            m.append(self.tasks[k].status.as_str());
            m.append("' state. Only failed or closed tasks can be deleted.");
            let e = task_state_error(m, id, self.tasks[k].status);
            let allowed = vec!["failed".to_owned(), "closed".to_owned()];
            proof {
                lemma_detail_keys_distinct();
                assert(allowed@.map_values(|x: String| x@) =~= seq!["failed"@, "closed"@]);
            }
            return Err(e.with_detail("allowedStatuses", DetailValue::List(allowed)));
        }
        let ghost before = self.tasks@;
        let _ = self.tasks.remove(k);
        proof {
            let after = self.tasks@;
            assert forall|i: int| 0 <= i < after.len() implies task_wf(#[trigger] after[i]) by {
                if i >= k {
                    assert(after[i] == before[i + 1]);
                }
            }
            assert forall|i: int, j: int| 0 <= i < j < after.len() implies (#[trigger] after[i]).id@
                != (#[trigger] after[j]).id@ by {
                if i >= k {
                    assert(after[i] == before[i + 1]);
                }
                if j >= k {
                    assert(after[j] == before[j + 1]);
                }
            }
            assert forall|i: int, j: int| 0 <= i < j < after.len() implies (#[trigger] after[i]).created_at
                <= (#[trigger] after[j]).created_at by {
                if i >= k {
                    assert(after[i] == before[i + 1]);
                }
                if j >= k {
                    assert(after[j] == before[j + 1]);
                }
            }
        }
        Ok(())
    }

    /// Removes every task.
    pub fn clear(&mut self)
        requires
            old(self).wf(),
        ensures
            final(self).wf(),
            final(self).spec_tasks().len() == 0,
            final(self).spec_counter() == old(self).spec_counter(),
    {
        self.tasks.clear();
    }

    /// Reopens a failed task and queues it again.
    pub fn retry(&mut self, id: &str, now: u64) -> (r: Result<TaskRunResult, ApiError>)
        requires
            old(self).wf(),
        ensures
            final(self).wf(),
            !old(self).contains(id@) ==> (r matches Err(e) && e.has_code(RpcErrorCode::TaskNotFound)
                && final(self).spec_tasks() == old(self).spec_tasks() && final(self).spec_counter()
                == old(self).spec_counter()),
            old(self).contains(id@) && old(self).task(id@).status != TaskStatus::Failed ==> (r matches Err(
                e,
            ) && e.has_code(RpcErrorCode::PreconditionFailed) && final(self).spec_tasks() == old(self).spec_tasks() && final(self).spec_counter() == old(self).spec_counter()),
            old(self).contains(id@) && old(self).task(id@).status == TaskStatus::Failed
                && old(self).task(id@).archived_at is Some ==> (r matches Err(e) && e.has_code(RpcErrorCode::PreconditionFailed) && final(self).spec_tasks() == old(self).replaced(
                id@,
                reopened(old(self).task(id@), now),
            ) && final(self).spec_counter() == old(self).spec_counter()),
            old(self).contains(id@) && old(self).task(id@).status == TaskStatus::Failed
                && old(self).task(id@).archived_at is None ==> (r matches Ok(res) && res.success
                && res.queued_task_id@ == queued_id(now, final(self).spec_counter()) && res.task
                == Some(enqueued(reopened(old(self).task(id@), now), res.queued_task_id, now))
                && final(self).spec_tasks() == old(self).replaced(
                id@,
                enqueued(reopened(old(self).task(id@), now), res.queued_task_id, now),
            ) && final(self).spec_counter() == next_counter(old(self).spec_counter())),
    {
        let k = match self.find(id) {
            Some(k) => k,
            None => return Err(task_not_found_error(id)),
        };
        if self.tasks[k].status != TaskStatus::Failed {
            return Err(task_state_error("Only failed tasks can be retried".to_owned(), id, self.tasks[k].status));
        }
        let mut nt = self.tasks[k].copy();
        nt.status = TaskStatus::Open;
        nt.queued_task_id = None;
        nt.completed_at = None;
        nt.error_message = None;
        nt.updated_at = now;
        self.put(k, nt);
        proof {
            self.lemma_index_of(k as int);
        }
        let r = self.run(id, now);
        proof {
            if r is Ok {
                let res = r.unwrap();
                assert(self.spec_tasks() =~= old(self).replaced(
                    id@,
                    enqueued(reopened(old(self).task(id@), now), res.queued_task_id, now),
                ));
            }
        }
        r
    }

    /// Cancels a pending or running task: it fails with a fixed message.
    pub fn cancel(&mut self, id: &str, now: u64) -> (r: Result<TaskRecord, ApiError>)
        requires
            old(self).wf(),
        ensures
            final(self).wf(),
            final(self).spec_counter() == old(self).spec_counter(),
            !old(self).contains(id@) ==> (r matches Err(e) && e.has_code(RpcErrorCode::TaskNotFound)
                && final(self).spec_tasks() == old(self).spec_tasks()),
            old(self).contains(id@) && !old(self).task(id@).status.spec_is_queued() ==> (r matches Err(
                e,
            ) && e.has_code(RpcErrorCode::PreconditionFailed) && final(self).spec_tasks() == old(self).spec_tasks()),
            old(self).contains(id@) && old(self).task(id@).status.spec_is_queued() ==> (r matches Ok(t)
                && t.error_message is Some && t.error_message.unwrap()@ == "Task cancelled by user"@
                && t == cancelled(old(self).task(id@), t.error_message.unwrap(), now)
                && final(self).spec_tasks() == old(self).replaced(id@, t)),
    {
        let k = match self.find(id) {
            Some(k) => k,
            None => return Err(task_not_found_error(id)),
        };
        if !self.tasks[k].status.is_queued() {
            return Err(
                task_state_error("Only running or pending tasks can be cancelled".to_owned(), id, self.tasks[k].status),
            );
        }
        let mut nt = self.tasks[k].copy();
        nt.status = TaskStatus::Failed;
        nt.completed_at = Some(now);
        nt.updated_at = now;
        nt.error_message = Some("Task cancelled by user".to_owned());
        nt.queued_task_id = None;
        let out = nt.copy();
        self.put(k, nt);
        Ok(out)
    }

    fn is_wf_record(t: &TaskRecord) -> (r: bool)
        ensures
            r == task_wf(*t),
    {
        (t.error_message.is_none() || t.status == TaskStatus::Failed) && (t.status.is_terminal()
            == t.completed_at.is_some()) && (t.queued_task_id.is_some() == t.status.is_queued()) && 1
            <= t.priority && t.priority <= 5
    }

    /// Rebuilds a store from a snapshot: records that break the task
    /// invariants or repeat an id are skipped.
    pub fn restore(records: Vec<TaskRecord>, queue_counter: u64) -> (r: TaskDomain)
        ensures
            r.wf(),
            r.spec_counter() == queue_counter,
            r.spec_tasks().len() <= records@.len(),
            forall|i: int| 0 <= i < r.spec_tasks().len() ==> records@.contains(#[trigger] r.spec_tasks()[i]),
            forall|i: int| 0 <= i < records@.len() && task_wf(#[trigger] records@[i]) ==> r.contains(records@[i].id@),
    {
        let mut d = TaskDomain { tasks: Vec::new(), queue_counter };
        let mut i: usize = 0;
        while i < records.len()
            invariant
                d.wf(),
                d.spec_counter() == queue_counter,
                0 <= i <= records@.len(),
                d.spec_tasks().len() <= i,
                forall|j: int| 0 <= j < d.spec_tasks().len() ==> records@.contains(#[trigger] d.spec_tasks()[j]),
                forall|j: int| 0 <= j < i && task_wf(#[trigger] records@[j]) ==> d.contains(records@[j].id@),
            decreases records@.len() - i,
        {
            let ghost prev = d;
            let t = records[i].copy();
            if Self::is_wf_record(&t) && d.find(t.id.as_str()).is_none() {
                let k = d.insert_position(t.created_at);
                let ghost before = d.spec_tasks();
                d.insert_at(k, t);
                proof {
                    assert forall|j: int| 0 <= j < d.spec_tasks().len() implies records@.contains(
                        #[trigger] d.spec_tasks()[j],
                    ) by {
                        if j < k {
                            assert(d.spec_tasks()[j] == before[j]);
                        } else if j == k {
                            assert(d.spec_tasks()[j] == records@[i as int]);
                        } else {
                            assert(d.spec_tasks()[j] == before[j - 1]);
                        }
                    }
                    assert(d.ids()[k as int] == records@[i as int].id@);
                    assert forall|x: Seq<char>| prev.contains(x) implies d.contains(x) by {
                        let m = choose|m: int| 0 <= m < prev.ids().len() && prev.ids()[m] == x;
                        if m < k {
                            assert(d.ids()[m] == x);
                        } else {
                            assert(d.ids()[m + 1] == x);
                        }
                    }
                }
            } else {
                proof {
                    if task_wf(records@[i as int]) {
                        assert(t == records@[i as int]);
                    }
                }
            }
            i = i + 1;
        }
        d
    }

    /// Whether some stored task holds queue id `q`.
    pub open spec fn holds_queue_id(&self, q: Seq<char>) -> bool {
        exists|m: int|
            0 <= m < self.spec_tasks().len() && (#[trigger] self.spec_tasks()[m]).queued_task_id is Some
                && self.spec_tasks()[m].queued_task_id.unwrap()@ == q
    }

    fn queue_id_in_use(&self, q: &str) -> (r: bool)
        ensures
            r == self.holds_queue_id(q@),
    {
        let mut m: usize = 0;
        while m < self.tasks.len()
            invariant
                0 <= m <= self.tasks@.len(),
                forall|i: int|
                    0 <= i < m ==> !((#[trigger] self.tasks@[i]).queued_task_id is Some
                        && self.tasks@[i].queued_task_id.unwrap()@ == q@),
            decreases self.tasks@.len() - m,
        {
            match &self.tasks[m].queued_task_id {
                Some(x) => {
                    if str_eq(x.as_str(), q) {
                        return true;
                    }
                },
                None => {},
            }
            m = m + 1;
        }
        false
    }

    /// Whether the task at `k` holds a queue id that no other task holds.
    pub open spec fn unique_queue_id_at(&self, k: int) -> bool {
        &&& self.spec_tasks()[k].queued_task_id is Some
        &&& forall|m: int|
            0 <= m < self.spec_tasks().len() && m != k && (#[trigger] self.spec_tasks()[m]).queued_task_id is Some
                ==> self.spec_tasks()[m].queued_task_id.unwrap()@ != self.spec_tasks()[k].queued_task_id.unwrap()@
    }

    /// Queues every task that is ready, in store order. A task whose new
    /// queue id another task already holds is left as it was and reported
    /// in `errors`.
    pub fn run_all(&mut self, now: u64) -> (r: TaskRunAllResult)
        requires
            old(self).wf(),
        ensures
            final(self).wf(),
            r.enqueued as nat + r.errors@.len() == old(self).spec_tasks().filter(ready_pred(old(self).spec_tasks())).len(),
            final(self).spec_tasks().len() == old(self).spec_tasks().len(),
            forall|k: int|
                0 <= k < old(self).spec_tasks().len() && is_ready(
                    #[trigger] old(self).spec_tasks()[k],
                    old(self).spec_tasks(),
                ) ==> (final(self).unique_queue_id_at(k) && final(self).spec_tasks()[k] == enqueued(
                    old(self).spec_tasks()[k],
                    final(self).spec_tasks()[k].queued_task_id.unwrap(),
                    now,
                )) || final(self).spec_tasks()[k] == old(self).spec_tasks()[k],
            forall|k: int|
                0 <= k < old(self).spec_tasks().len() && !is_ready(
                    #[trigger] old(self).spec_tasks()[k],
                    old(self).spec_tasks(),
                ) ==> final(self).spec_tasks()[k] == old(self).spec_tasks()[k],
            old(self).spec_counter() + old(self).spec_tasks().len() < u64::MAX && (forall|c: u64|
                old(self).spec_counter() < c <= old(self).spec_counter() + old(self).spec_tasks().len()
                    ==> !old(self).holds_queue_id(#[trigger] queued_id(now, c))) ==> r.errors@.len() == 0,
    {
        let ghost all = self.tasks@;
        let ghost pred = ready_pred(all);
        let ghost c0 = self.queue_counter;
        let ghost ns = c0 + all.len() < u64::MAX;
        let ghost free = forall|c: u64| c0 < c <= c0 + all.len() ==> !old(self).holds_queue_id(#[trigger] queued_id(now, c));
        let mut count: usize = 0;
        let mut errors: Vec<String> = Vec::new();
        let mut j: usize = 0;
        while j < self.tasks.len()
            invariant
                self.wf(),
                all == old(self).spec_tasks(),
                pred == ready_pred(all),
                self.spec_tasks().len() == all.len(),
                0 <= j <= all.len(),
                count + errors@.len() <= j,
                count as nat + errors@.len() == all.subrange(0, j as int).filter(pred).len(),
                forall|k: int|
                    0 <= k < all.len() ==> (#[trigger] self.spec_tasks()[k]).id@ == all[k].id@
                        && unblocks(self.spec_tasks()[k]) == unblocks(all[k]),
                forall|k: int|
                    0 <= k < j && is_ready(#[trigger] all[k], all) ==> (self.unique_queue_id_at(k)
                        && self.spec_tasks()[k] == enqueued(all[k], self.spec_tasks()[k].queued_task_id.unwrap(), now))
                        || self.spec_tasks()[k] == all[k],
                forall|k: int|
                    0 <= k < j && !is_ready(#[trigger] all[k], all) ==> self.spec_tasks()[k] == all[k],
                forall|k: int| j <= k < all.len() ==> #[trigger] self.spec_tasks()[k] == all[k],
                c0 == old(self).spec_counter(),
                ns == (c0 + all.len() < u64::MAX),
                free == (forall|c: u64| c0 < c <= c0 + all.len() ==> !old(self).holds_queue_id(#[trigger] queued_id(now, c))),
                ns ==> self.spec_counter() == c0 + count + errors@.len(),
                ns ==> forall|k: int|
                    0 <= k < all.len() && #[trigger] self.spec_tasks()[k] != all[k] ==> self.spec_tasks()[k].queued_task_id is Some
                        && exists|c: u64| c0 < c <= self.spec_counter() && self.spec_tasks()[k].queued_task_id.unwrap()@ == queued_id(now, c),
                ns && free ==> errors@.len() == 0,
            decreases all.len() - j,
        {
            proof {
                lemma_ready_same(all[j as int], self.spec_tasks(), all);
            }
            let is_r = self.ready_at(j);
            if is_r {
                let id = self.tasks[j].id.clone();
                proof {
                    self.lemma_index_of(j as int);
                }
                let next = if self.queue_counter == u64::MAX {
                    u64::MAX
                } else {
                    self.queue_counter + 1
                };
                let mut candidate = "queued-".to_owned();
                push_decimal(&mut candidate, now);
                candidate.append("-");
                push_hex4(&mut candidate, next);
                assert(candidate@ =~= queued_id(now, next_counter(self.spec_counter())));
                let ghost before = self.spec_tasks();
                let ghost cnt_before = self.spec_counter();
                let in_use = self.queue_id_in_use(candidate.as_str());
                proof {
                    if ns && free && in_use {
                        let m = choose|m: int|
                            0 <= m < self.spec_tasks().len() && (#[trigger] self.spec_tasks()[m]).queued_task_id is Some
                                && self.spec_tasks()[m].queued_task_id.unwrap()@ == candidate@;
                        if self.spec_tasks()[m] == all[m] {
                            assert(old(self).holds_queue_id(queued_id(now, next_counter(cnt_before))));
                        } else {
                            let c = choose|c: u64| c0 < c <= cnt_before && self.spec_tasks()[m].queued_task_id.unwrap()@ == queued_id(now, c);
                            lemma_queued_id_injective(now, c, next_counter(cnt_before));
                        }
                    }
                }
                if in_use {
                    let mut m = id.clone();
                    m.append(": queue id ");
                    m.append(candidate.as_str());
                    m.append(" is already in use");
                    errors.push(m);
                    self.queue_counter = next;
                } else {
                    let q = self.queue_task(id.as_str(), now);
                    match q {
                        Ok(_) => {
                            count = count + 1;
                        },
                        Err(_) => {
                            assert(false);
                        },
                    }
                    proof {
                        let s = self.spec_tasks();
                        assert(s == before.update(j as int, s[j as int]));
                        assert(s[j as int].queued_task_id.unwrap()@ == candidate@);
                        if ns {
                            assert forall|k: int|
                                0 <= k < all.len() && #[trigger] s[k] != all[k] implies s[k].queued_task_id is Some && exists|c: u64|
                                    c0 < c <= self.spec_counter() && s[k].queued_task_id.unwrap()@ == queued_id(now, c) by {
                                if k == j {
                                    assert(queued_id(now, next_counter(cnt_before)) == s[k].queued_task_id.unwrap()@);
                                } else {
                                    assert(s[k] == before[k]);
                                }
                            }
                        }
                        assert forall|k: int|
                            0 <= k < j + 1 && is_ready(#[trigger] all[k], all) implies (self.unique_queue_id_at(k)
                            && s[k] == enqueued(all[k], s[k].queued_task_id.unwrap(), now)) || s[k] == all[k] by {
                            if k < j && s[k] != all[k] {
                                assert(before[k].queued_task_id is Some);
                                assert(before[k].queued_task_id.unwrap()@ != candidate@);
                                assert forall|m: int|
                                    0 <= m < s.len() && m != k && (#[trigger] s[m]).queued_task_id is Some implies s[m].queued_task_id.unwrap()@
                                    != s[k].queued_task_id.unwrap()@ by {
                                    if m != j {
                                        assert(s[m] == before[m]);
                                    }
                                }
                            } else if k == j {
                                assert forall|m: int|
                                    0 <= m < s.len() && m != k && (#[trigger] s[m]).queued_task_id is Some implies s[m].queued_task_id.unwrap()@
                                    != s[k].queued_task_id.unwrap()@ by {
                                    assert(s[m] == before[m]);
                                }
                            }
                        }
                    }
                }
            }
            proof {
                reveal(Seq::filter);
                assert(all.subrange(0, j + 1).drop_last() =~= all.subrange(0, j as int));
            }
            j = j + 1;
        }
        assert(all.subrange(0, j as int) =~= all);
        TaskRunAllResult { enqueued: count as u64, errors }
    }

    fn queue_position(&self, k: usize) -> (r: u64)
        requires
            self.wf(),
            k < self.spec_tasks().len(),
        ensures
            r as nat == count_before(self.spec_tasks(), self.spec_tasks().len() as int, k as int),
    {
        let mut count: usize = 0;
        let mut i: usize = 0;
        while i < self.tasks.len()
            invariant
                k < self.tasks@.len(),
                0 <= i <= self.tasks@.len(),
                count <= i,
                count as nat == count_before(self.tasks@, i as int, k as int),
            decreases self.tasks@.len() - i,
        {
            let t = &self.tasks[i];
            let u = &self.tasks[k];
            if t.queued_task_id.is_some() && t.status.is_queued() && (t.updated_at < u.updated_at || (
            t.updated_at == u.updated_at && i < k)) {
                count = count + 1;
            }
            i = i + 1;
        }
        count as u64
    }

    /// Whether the task is queued, its place in the queue, and the runner's
    /// process id (`pid`) while it runs.
    pub fn status(&self, id: &str, pid: u32) -> (r: TaskStatusResult)
        requires
            self.wf(),
        ensures
            !self.contains(id@) ==> !r.is_queued && r.queue_position is None && r.runner_pid is None,
            self.contains(id@) ==> r.is_queued == (self.task(id@).queued_task_id is Some
                && self.task(id@).status.spec_is_queued()),
            self.contains(id@) && r.is_queued ==> r.queue_position == Some(
                count_before(self.spec_tasks(), self.spec_tasks().len() as int, self.index_of(id@)) as u64,
            ),
            !r.is_queued ==> r.queue_position is None,
            self.contains(id@) ==> r.runner_pid == (if self.task(id@).status == TaskStatus::Running {
                Some(pid)
            } else {
                None
            }),
    {
        let k = match self.find(id) {
            Some(k) => k,
            None => {
                return TaskStatusResult { is_queued: false, queue_position: None, runner_pid: None };
            },
        };
        let t = &self.tasks[k];
        let is_queued = t.queued_task_id.is_some() && t.status.is_queued();
        let queue_position = if is_queued {
            Some(self.queue_position(k))
        } else {
            None
        };
        let runner_pid = if t.status == TaskStatus::Running {
            Some(pid)
        } else {
            None
        };
        TaskStatusResult { is_queued, queue_position, runner_pid }
    }
}

/// Every task of a well-formed store keeps the task invariants: only a
/// failed task carries an error message, a task is terminal exactly when it
/// has a completion time, a task holds a queue id exactly when it is pending
/// or running,
/// and its priority lies in 1..=5. Every operation keeps the store
/// well-formed.
pub proof fn lemma_task_invariants(d: TaskDomain, i: int)
    requires
        d.wf(),
        0 <= i < d.spec_tasks().len(),
    ensures
        d.spec_tasks()[i].error_message is Some ==> d.spec_tasks()[i].status == TaskStatus::Failed,
        d.spec_tasks()[i].status.spec_is_terminal() <==> d.spec_tasks()[i].completed_at is Some,
        d.spec_tasks()[i].queued_task_id is Some <==> d.spec_tasks()[i].status.spec_is_queued(),
        1 <= d.spec_tasks()[i].priority <= 5,
{
    assert(task_wf(d.spec_tasks()[i]));
}

/// A task is ready exactly when it is open, not archived, and either has
/// no blocker or its blocker is closed or archived.
pub proof fn lemma_ready_iff(d: TaskDomain, t: TaskRecord)
    requires
        d.wf(),
    ensures
        is_ready(t, d.spec_tasks()) <==> (t.status == TaskStatus::Open && t.archived_at is None && (
        t.blocked_by is None || exists|j: int|
            0 <= j < d.spec_tasks().len() && (#[trigger] d.spec_tasks()[j]).id@ == t.blocked_by.unwrap()@
                && (d.spec_tasks()[j].status == TaskStatus::Closed || d.spec_tasks()[j].archived_at is Some))),
{
}

/// Queue ids minted at the same time differ when their counters do.
pub proof fn lemma_queued_id_injective(now: u64, a: u64, b: u64)
    requires
        queued_id(now, a) == queued_id(now, b),
    ensures
        a == b,
{
    let p = "queued-"@ + decimal(now as nat) + "-"@;
    assert(queued_id(now, a) =~= p + pad4(hex(a as nat)));
    assert(queued_id(now, b) =~= p + pad4(hex(b as nat)));
    let n = queued_id(now, a).len() as int;
    assert((p + pad4(hex(a as nat))).subrange(p.len() as int, n) =~= pad4(hex(a as nat)));
    assert((p + pad4(hex(b as nat))).subrange(p.len() as int, n) =~= pad4(hex(b as nat)));
    lemma_pad4_hex_injective(a as nat, b as nat);
}

/// Readiness depends only on the ids and the releasing state of the others.
proof fn lemma_ready_same(t: TaskRecord, a: Seq<TaskRecord>, b: Seq<TaskRecord>)
    requires
        a.len() == b.len(),
        forall|k: int|
            0 <= k < b.len() ==> (#[trigger] a[k]).id@ == b[k].id@ && unblocks(a[k]) == unblocks(b[k]),
    ensures
        is_ready(t, a) == is_ready(t, b),
{
    if let Some(x) = t.blocked_by {
        if exists|j: int| 0 <= j < a.len() && (#[trigger] a[j]).id@ == x@ && unblocks(a[j]) {
            let j = choose|j: int| 0 <= j < a.len() && (#[trigger] a[j]).id@ == x@ && unblocks(a[j]);
            assert(b[j].id@ == x@ && unblocks(b[j]));
        }
        if exists|j: int| 0 <= j < b.len() && (#[trigger] b[j]).id@ == x@ && unblocks(b[j]) {
            let j = choose|j: int| 0 <= j < b.len() && (#[trigger] b[j]).id@ == x@ && unblocks(b[j]);
            assert(a[j].id@ == x@ && unblocks(a[j]));
        }
    }
}

} // verus!
