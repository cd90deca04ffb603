//! Worktree loops and their merge queue: the merge state machine, the
//! decisions of merge, retry, discard and process, and the merge task that a
//! loop can hand to the task domain.
//!
//! The registry, the lock file and the worker binary live outside; callers
//! read them and pass plain values in.
use vstd::prelude::*;

use crate::errors::{ApiError, RpcErrorCode};
use crate::task_domain::{TaskCreateParams, TaskDomain, TaskStatus};
use crate::stream_domain::{strings_contain, views};
use crate::text::{decimal, push_decimal, str_eq, trim, trim_str};

verus! {

/// Where a loop stands in the merge queue.
#[derive(Debug, Clone, Copy, PartialEq, Eq, Structural)]
pub enum MergeState {
    Queued,
    Merging,
    Merged,
    NeedsReview,
    Discarded,
}

impl MergeState {
    pub open spec fn spec_is_terminal(self) -> bool {
        self == MergeState::Merged || self == MergeState::Discarded
    }

    /// The state as the loop listing shows it.
    pub fn as_str(self) -> (r: &'static str)
        ensures
            r@ == (match self {
                MergeState::Queued => "queued"@,
                MergeState::Merging => "merging"@,
                MergeState::Merged => "merged"@,
                MergeState::NeedsReview => "needs-review"@,
                MergeState::Discarded => "discarded"@,
            }),
    {
        match self {
            MergeState::Queued => "queued",
            MergeState::Merging => "merging",
            MergeState::Merged => "merged",
            MergeState::NeedsReview => "needs-review",
            MergeState::Discarded => "discarded",
        }
    }
}

/// The transitions of the merge state machine.
pub open spec fn allowed(from: MergeState, to: MergeState) -> bool {
    match (from, to) {
        (MergeState::Queued, MergeState::Merging) => true,
        (MergeState::Merging, MergeState::Merged) => true,
        (MergeState::Merging, MergeState::NeedsReview) => true,
        (MergeState::NeedsReview, MergeState::Queued) => true,
        (MergeState::NeedsReview, MergeState::Merging) => true,
        (_, MergeState::Discarded) => !from.spec_is_terminal(),
        _ => false,
    }
}

/// One loop in the merge queue.
#[derive(Debug, Clone)]
pub struct MergeEntry {
    pub loop_id: String,
    pub prompt: String,
    pub state: MergeState,
    pub merge_commit: Option<String>,
    pub worktree_path: Option<String>,
}

/// What `loop.list` asks for.
#[derive(Debug, Clone)]
pub struct LoopListParams {
    pub include_terminal: Option<bool>,
}

/// What `loop.retry` asks for.
#[derive(Debug, Clone)]
pub struct LoopRetryParams {
    pub id: String,
    pub steering_input: Option<String>,
}

/// What `loop.stop` and `loop.merge` ask for.
#[derive(Debug, Clone)]
pub struct LoopStopMergeParams {
    pub id: String,
    pub force: Option<bool>,
}

/// What `loop.trigger_merge_task` asks for.
#[derive(Debug, Clone)]
pub struct LoopTriggerMergeTaskParams {
    pub loop_id: String,
}

/// One loop in a listing.
#[derive(Debug, Clone)]
pub struct LoopRecord {
    pub id: String,
    pub status: String,
    pub location: String,
    pub prompt: Option<String>,
    pub merge_commit: Option<String>,
}

/// The answer to `loop.status`.
#[derive(Debug, Clone)]
pub struct LoopStatusResult {
    pub running: bool,
    pub interval_ms: u64,
    pub last_processed_at: Option<u64>,
}

/// The answer to `loop.merge_button_state`.
#[derive(Debug, Clone)]
pub struct MergeButtonStateResult {
    pub enabled: bool,
    pub reason: Option<String>,
    pub action: Option<String>,
}

/// The answer to `loop.trigger_merge_task`.
#[derive(Debug, Clone)]
pub struct TriggerMergeTaskResult {
    pub success: bool,
    pub task_id: String,
    pub queued_task_id: Option<String>,
}

/// The loop that a discard applies to.
#[derive(Debug, Clone)]
pub struct ResolvedLoop {
    pub id: String,
    pub worktree_path: Option<String>,
}

/// The primary loop, when its lock is held by a live process.
#[derive(Debug, Clone)]
pub struct PrimaryLoop {
    pub prompt: String,
}

/// A loop of the registry, with whether its process is alive.
#[derive(Debug, Clone)]
pub struct RegisteredLoop {
    pub id: String,
    pub prompt: String,
    pub worktree_path: Option<String>,
    pub alive: bool,
}

pub open spec fn opt_view(o: Option<String>) -> Option<Seq<char>> {
    match o {
        Some(s) => Some(s@),
        None => None,
    }
}

/// The characters of a listed loop: id, status, location, prompt, commit.
pub open spec fn rec_view(r: LoopRecord) -> (Seq<char>, Seq<char>, Seq<char>, Option<Seq<char>>, Option<Seq<char>>) {
    (r.id@, r.status@, r.location@, opt_view(r.prompt), opt_view(r.merge_commit))
}

pub open spec fn state_name(s: MergeState) -> Seq<char> {
    match s {
        MergeState::Queued => "queued"@,
        MergeState::Merging => "merging"@,
        MergeState::Merged => "merged"@,
        MergeState::NeedsReview => "needs-review"@,
        MergeState::Discarded => "discarded"@,
    }
}

/// How the primary loop is listed.
pub open spec fn primary_part(p: Option<PrimaryLoop>) -> Seq<(Seq<char>, Seq<char>, Seq<char>, Option<Seq<char>>, Option<Seq<char>>)> {
    match p {
        Some(x) => seq![("(primary)"@, "running"@, "(in-place)"@, Some(x.prompt@), None)],
        None => Seq::empty(),
    }
}

/// How a registry loop is listed.
pub open spec fn registry_rec(e: RegisteredLoop) -> (Seq<char>, Seq<char>, Seq<char>, Option<Seq<char>>, Option<Seq<char>>) {
    (
        e.id@,
        if e.alive {
            "running"@
        } else {
            "crashed"@
        },
        match e.worktree_path {
            Some(w) => w@,
            None => "(in-place)"@,
        },
        Some(e.prompt@),
        None,
    )
}

/// How a merge-queue entry is listed.
pub open spec fn queue_rec(e: MergeEntry) -> (Seq<char>, Seq<char>, Seq<char>, Option<Seq<char>>, Option<Seq<char>>) {
    (
        e.loop_id@,
        state_name(e.state),
        match e.merge_commit {
            Some(c) => c@,
            None => "-"@,
        },
        Some(e.prompt@),
        opt_view(e.merge_commit),
    )
}

/// The ids listed before the merge queue is read.
pub open spec fn listed_ids(p: Option<PrimaryLoop>, reg: Seq<RegisteredLoop>) -> Seq<Seq<char>> {
    (if p is Some {
        seq!["(primary)"@]
    } else {
        Seq::<Seq<char>>::empty()
    }) + reg.map_values(|e: RegisteredLoop| e.id@)
}

pub open spec fn unlisted(ids: Seq<Seq<char>>) -> spec_fn(MergeEntry) -> bool {
    |e: MergeEntry| !ids.contains(e.loop_id@)
}

pub open spec fn live_pred() -> spec_fn((Seq<char>, Seq<char>, Seq<char>, Option<Seq<char>>, Option<Seq<char>>)) -> bool {
    |v: (Seq<char>, Seq<char>, Seq<char>, Option<Seq<char>>, Option<Seq<char>>)| v.1 != "merged"@ && v.1
        != "discarded"@
}

/// Every loop from the three sources, each id once: the primary loop, the
/// registry, then queue entries whose loop was not listed yet.
pub open spec fn all_loops(p: Option<PrimaryLoop>, reg: Seq<RegisteredLoop>, q: Seq<MergeEntry>) -> Seq<
    (Seq<char>, Seq<char>, Seq<char>, Option<Seq<char>>, Option<Seq<char>>),
> {
    primary_part(p) + reg.map_values(|e: RegisteredLoop| registry_rec(e)) + q.filter(unlisted(listed_ids(p, reg))).map_values(
        |e: MergeEntry| queue_rec(e),
    )
}

/// A git worktree of the workspace and its branch.
#[derive(Debug, Clone)]
pub struct WorktreeInfo {
    pub branch: String,
    pub path: String,
}

/// The worktree of loop `id`: the first on branch `ralph/<id>`.
pub open spec fn worktree_of(worktrees: Seq<WorktreeInfo>, id: Seq<char>) -> Option<Seq<char>>
    decreases worktrees.len(),
{
    if worktrees.len() == 0 {
        None
    } else if worktrees[0].branch@ == "ralph/"@ + id {
        Some(worktrees[0].path@)
    } else {
        worktree_of(worktrees.drop_first(), id)
    }
}

/// The path of the worktree on branch `ralph/<loop_id>`, if any.
pub fn find_worktree_path(worktrees: &Vec<WorktreeInfo>, loop_id: &str) -> (r: Option<String>)
    ensures
        opt_view(r) == worktree_of(worktrees@, loop_id@),
{
    let mut branch = "ralph/".to_owned();
    branch.append(loop_id);
    let mut i: usize = 0;
    assert(worktrees@.subrange(0, worktrees@.len() as int) =~= worktrees@);
    while i < worktrees.len()
        invariant
            0 <= i <= worktrees@.len(),
            branch@ == "ralph/"@ + loop_id@,
            worktree_of(worktrees@, loop_id@) == worktree_of(
                worktrees@.subrange(i as int, worktrees@.len() as int),
                loop_id@,
            ),
        decreases worktrees@.len() - i,
    {
        let ghost rest = worktrees@.subrange(i as int, worktrees@.len() as int);
        assert(rest[0] == worktrees@[i as int]);
        if worktrees[i].branch == branch {
            return Some(worktrees[i].path.clone());
        }
        assert(rest.drop_first() =~= worktrees@.subrange(i + 1, worktrees@.len() as int));
        i = i + 1;
    }
    None
}

/// The loop domain: the merge queue and the processing stamp.
pub struct LoopDomain {
    workspace_root: String,
    process_interval_ms: u64,
    ralph_command: String,
    last_processed_at: Option<u64>,
    queue: Vec<MergeEntry>,
}

fn loop_not_found_error(id: &str) -> (r: ApiError)
    ensures
        r.has_code(RpcErrorCode::LoopNotFound),
{
    let mut m = "Loop '".to_owned();
    m.append(id);
    m.append("' not found");
    ApiError::loop_not_found(m).with_text("loopId", id)
}

fn loop_message(id: &str, suffix: &str) -> (r: String)
    ensures
        r@ == "Loop '"@ + id@ + suffix@,
{
    let mut m = "Loop '".to_owned();
    m.append(id);
    m.append(suffix);
    m
}

/// The title of a merge task: `Merge: ` and at most 50 characters of the
/// loop's prompt (its id when it has none).
pub open spec fn merge_title(subject: Seq<char>) -> Seq<char> {
    "Merge: "@ + if subject.len() <= 50 {
        subject
    } else {
        subject.subrange(0, 50)
    }
}

/// The id of a merge task.
pub open spec fn merge_task_id(loop_id: Seq<char>, now: u64) -> Seq<char> {
    "merge-"@ + loop_id + "-"@ + decimal(now as nat)
}

/// The instructions a merge task carries.
pub open spec fn merge_instructions(loop_id: Seq<char>, location: Seq<char>, prompt: Seq<char>) -> Seq<char> {
    "Merge worktree loop '"@ + loop_id + "' into main branch.\n\nThe worktree is located at: "@ + location
        + "\nOriginal task: "@ + prompt
        + "\n\nInstructions:\n1. Review the commits in the worktree branch\n2. Merge the changes into main branch\n3. Resolve any conflicts if present\n4. Delete the worktree after successful merge"@
}

/// The steering text a retry writes: the trimmed input, when not blank.
pub fn steering_text(input: Option<&str>) -> (r: Option<String>)
    ensures
        match input {
            Some(s) => if trim(s@).len() > 0 {
                r matches Some(t) && t@ == trim(s@)
            } else {
                r is None
            },
            None => r is None,
        },
{
    match input {
        Some(s) => {
            let t = trim_str(s);
            if t.unicode_len() > 0 {
                Some(t.to_owned())
            } else {
                None
            }
        },
        None => None,
    }
}

impl LoopDomain {
    pub closed spec fn spec_queue(&self) -> Seq<MergeEntry> {
        self.queue@
    }

    pub closed spec fn spec_last_processed(&self) -> Option<u64> {
        self.last_processed_at
    }

    pub closed spec fn spec_interval(&self) -> u64 {
        self.process_interval_ms
    }

    pub open spec fn queue_ids(&self) -> Seq<Seq<char>> {
        self.spec_queue().map_values(|e: MergeEntry| e.loop_id@)
    }

    pub open spec fn has_entry(&self, id: Seq<char>) -> bool {
        self.queue_ids().contains(id)
    }

    pub open spec fn entry_index(&self, id: Seq<char>) -> int {
        choose|k: int| 0 <= k < self.queue_ids().len() && self.queue_ids()[k] == id
    }

    /// The queue entry of loop `id` (meaningful when there is one).
    pub open spec fn entry(&self, id: Seq<char>) -> MergeEntry {
        self.spec_queue()[self.entry_index(id)]
    }

    /// The domain's invariant: one entry per loop.
    pub open spec fn wf(&self) -> bool {
        forall|i: int, j: int|
            0 <= i < j < self.spec_queue().len() ==> (#[trigger] self.spec_queue()[i]).loop_id@ != (
            #[trigger] self.spec_queue()[j]).loop_id@
    }

    pub fn new(workspace_root: String, process_interval_ms: u64, ralph_command: String) -> (r: LoopDomain)
        ensures
            r.wf(),
            r.spec_queue().len() == 0,
            r.spec_last_processed() is None,
            r.spec_interval() == process_interval_ms,
    {
        LoopDomain {
            workspace_root,
            process_interval_ms,
            ralph_command,
            last_processed_at: None,
            queue: Vec::new(),
        }
    }

    /// The workspace the loops belong to.
    pub fn workspace_root(&self) -> &String {
        &self.workspace_root
    }

    /// The worker binary that processes and retries merges.
    pub fn ralph_command(&self) -> &String {
        &self.ralph_command
    }

    /// The merge queue, in order.
    pub fn queue(&self) -> (r: &Vec<MergeEntry>)
        ensures
            r@ == self.spec_queue(),
    {
        &self.queue
    }

    fn find(&self, id: &str) -> (r: Option<usize>)
        requires
            self.wf(),
        ensures
            r matches Some(k) ==> k < self.spec_queue().len() && k == self.entry_index(id@) && self.has_entry(id@)
                && self.spec_queue()[k as int].loop_id@ == id@,
            r is None ==> !self.has_entry(id@),
    {
        let mut i: usize = 0;
        while i < self.queue.len()
            invariant
                self.wf(),
                0 <= i <= self.queue@.len(),
                forall|j: int| 0 <= j < i ==> self.queue@[j].loop_id@ != id@,
            decreases self.queue@.len() - i,
        {
            if str_eq(self.queue[i].loop_id.as_str(), id) {
                proof {
                    assert(self.queue_ids()[i as int] == id@);
                    let k = self.entry_index(id@);
                    if k < i {
                    } else if k > i {
                        assert(self.spec_queue()[i as int].loop_id@ != self.spec_queue()[k].loop_id@);
                    }
                }
                return Some(i);
            }
            i = i + 1;
        }
        None
    }

    fn set_state(&mut self, k: usize, state: MergeState, commit: Option<String>)
        requires
            old(self).wf(),
            k < old(self).spec_queue().len(),
        ensures
            final(self).wf(),
            final(self).spec_queue() == old(self).spec_queue().update(
                k as int,
                MergeEntry { state, merge_commit: commit, ..old(self).spec_queue()[k as int] },
            ),
            final(self).spec_last_processed() == old(self).spec_last_processed(),
            final(self).spec_interval() == old(self).spec_interval(),
    {
        let ghost before = self.queue@;
        let mut e = self.queue.remove(k);
        e.state = state;
        e.merge_commit = commit;
        self.queue.insert(k, e);
        proof {
            let s = self.queue@;
            assert(s =~= before.update(k as int, e));
            assert forall|i: int, j: int| 0 <= i < j < s.len() implies (#[trigger] s[i]).loop_id@
                != (#[trigger] s[j]).loop_id@ by {
                assert(before[i].loop_id@ != before[j].loop_id@);
            }
        }
    }

    /// Puts a loop in the queue; a loop already queued keeps its entry.
    pub fn enqueue(&mut self, loop_id: String, prompt: String, worktree_path: Option<String>)
        requires
            old(self).wf(),
        ensures
            final(self).wf(),
            old(self).has_entry(loop_id@) ==> final(self).spec_queue() == old(self).spec_queue(),
            !old(self).has_entry(loop_id@) ==> final(self).spec_queue() == old(self).spec_queue().push(
                MergeEntry { loop_id, prompt, state: MergeState::Queued, merge_commit: None, worktree_path },
            ),
    {
        if self.find(loop_id.as_str()).is_some() {
            return;
        }
        let ghost before = self.queue@;
        self.queue.push(
            MergeEntry { loop_id, prompt, state: MergeState::Queued, merge_commit: None, worktree_path },
        );
        proof {
            let s = self.queue@;
            assert forall|i: int, j: int| 0 <= i < j < s.len() implies (#[trigger] s[i]).loop_id@
                != (#[trigger] s[j]).loop_id@ by {
                if j == s.len() - 1 {
                    assert(old(self).queue_ids()[i] == before[i].loop_id@);
                }
            }
        }
    }

    /// Adds an entry read back from storage; a second entry for a loop is
    /// ignored.
    pub fn load_entry(&mut self, entry: MergeEntry)
        requires
            old(self).wf(),
        ensures
            final(self).wf(),
            old(self).has_entry(entry.loop_id@) ==> final(self).spec_queue() == old(self).spec_queue(),
            !old(self).has_entry(entry.loop_id@) ==> final(self).spec_queue() == old(self).spec_queue().push(entry),
    {
        if self.find(entry.loop_id.as_str()).is_some() {
            return;
        }
        let ghost before = self.queue@;
        self.queue.push(entry);
        proof {
            let s = self.queue@;
            assert forall|i: int, j: int| 0 <= i < j < s.len() implies (#[trigger] s[i]).loop_id@
                != (#[trigger] s[j]).loop_id@ by {
                if j == s.len() - 1 {
                    assert(old(self).queue_ids()[i] == before[i].loop_id@);
                }
            }
        }
    }

    /// Records the outcome of a merge attempt: `Merged` with a commit, or
    /// `NeedsReview` on a conflict. Only a merging loop has an outcome.
    pub fn record_merge_outcome(&mut self, id: &str, commit: Option<String>) -> (r: Result<(), ApiError>)
        requires
            old(self).wf(),
        ensures
            final(self).wf(),
            !old(self).has_entry(id@) ==> (r matches Err(e) && e.has_code(RpcErrorCode::LoopNotFound)
                && final(self).spec_queue() == old(self).spec_queue()),
            old(self).has_entry(id@) && old(self).entry(id@).state != MergeState::Merging ==> (r matches Err(
                e,
            ) && e.has_code(RpcErrorCode::PreconditionFailed) && final(self).spec_queue() == old(self).spec_queue()),
            old(self).has_entry(id@) && old(self).entry(id@).state == MergeState::Merging ==> allowed(
                MergeState::Merging,
                if commit is Some {
                    MergeState::Merged
                } else {
                    MergeState::NeedsReview
                },
            ),
            old(self).has_entry(id@) && old(self).entry(id@).state == MergeState::Merging ==> r is Ok
                && final(self).spec_queue() == old(self).spec_queue().update(
                old(self).entry_index(id@),
                MergeEntry {
                    state: if commit is Some {
                        MergeState::Merged
                    } else {
                        MergeState::NeedsReview
                    },
                    merge_commit: commit,
                    ..old(self).entry(id@)
                },
            ),
    {
        let k = match self.find(id) {
            Some(k) => k,
            None => return Err(loop_not_found_error(id)),
        };
        if self.queue[k].state != MergeState::Merging {
            return Err(ApiError::precondition_failed(loop_message(id, "' is not merging")));
        }
        let next = if commit.is_some() {
            MergeState::Merged
        } else {
            MergeState::NeedsReview
        };
        self.set_state(k, next, commit);
        Ok(())
    }

    /// Merges a loop by hand: refused when terminal, and when merging unless
    /// forced; otherwise the entry goes through `Merging` to `Merged` with
    /// `commit`.
    pub fn merge(&mut self, params: LoopStopMergeParams, commit: String) -> (r: Result<(), ApiError>)
        requires
            old(self).wf(),
        ensures
            final(self).wf(),
            !old(self).has_entry(params.id@) ==> (r matches Err(e) && e.has_code(RpcErrorCode::LoopNotFound)),
            old(self).has_entry(params.id@) && (old(self).entry(params.id@).state.spec_is_terminal() || (old(self).entry(params.id@).state == MergeState::Merging && !(params.force == Some(true)))) ==> (r matches Err(
                e,
            ) && e.has_code(RpcErrorCode::PreconditionFailed)),
            r is Err ==> final(self).spec_queue() == old(self).spec_queue(),
            r is Ok ==> (old(self).entry(params.id@).state == MergeState::Merging || allowed(
                old(self).entry(params.id@).state,
                MergeState::Merging,
            )) && allowed(MergeState::Merging, MergeState::Merged),
            r is Ok ==> old(self).has_entry(params.id@) && final(self).spec_queue() == old(self).spec_queue().update(
                old(self).entry_index(params.id@),
                MergeEntry {
                    state: MergeState::Merged,
                    merge_commit: Some(commit),
                    ..old(self).entry(params.id@)
                },
            ),
            old(self).has_entry(params.id@) && !old(self).entry(params.id@).state.spec_is_terminal() && (old(self).entry(params.id@).state != MergeState::Merging || params.force == Some(true)) ==> r is Ok,
    {
        let k = match self.find(params.id.as_str()) {
            Some(k) => k,
            None => return Err(loop_not_found_error(params.id.as_str())),
        };
        let state = self.queue[k].state;
        let force = match params.force {
            Some(f) => f,
            None => false,
        };
        if state == MergeState::Merged {
            return Err(ApiError::precondition_failed(loop_message(params.id.as_str(), "' is already merged")));
        }
        if state == MergeState::Discarded {
            return Err(ApiError::precondition_failed(loop_message(params.id.as_str(), "' is discarded")));
        }
        if state == MergeState::Merging && !force {
            return Err(
                ApiError::precondition_failed(
                    loop_message(params.id.as_str(), "' is currently merging. Use force=true to override."),
                ),
            );
        }
        let ghost before = self.queue@;
        if state != MergeState::Merging {
            let old_commit = self.queue[k].merge_commit.clone();
            self.set_state(k, MergeState::Merging, old_commit);
        }
        self.set_state(k, MergeState::Merged, Some(commit));
        proof {
            assert(self.queue@ =~= before.update(
                k as int,
                MergeEntry { state: MergeState::Merged, merge_commit: Some(commit), ..before[k as int] },
            ));
        }
        Ok(())
    }

    /// A retry needs the loop to wait for review.
    pub fn check_retry(&self, params: &LoopRetryParams) -> (r: Result<(), ApiError>)
        requires
            self.wf(),
        ensures
            !self.has_entry(params.id@) ==> (r matches Err(e) && e.has_code(RpcErrorCode::LoopNotFound)),
            self.has_entry(params.id@) && self.entry(params.id@).state != MergeState::NeedsReview ==> (r matches Err(
                e,
            ) && e.has_code(RpcErrorCode::PreconditionFailed)),
            r is Ok <==> self.has_entry(params.id@) && self.entry(params.id@).state == MergeState::NeedsReview,
    {
        let k = match self.find(params.id.as_str()) {
            Some(k) => k,
            None => return Err(loop_not_found_error(params.id.as_str())),
        };
        if self.queue[k].state != MergeState::NeedsReview {
            return Err(
                ApiError::precondition_failed(
                    loop_message(params.id.as_str(), "' can only be retried from 'needs-review'"),
                ),
            );
        }
        Ok(())
    }

    /// Discards a loop's queue entry; an absent or already discarded entry is
    /// left as it is, a merged one is refused.
    pub fn discard_entry(&mut self, id: &str) -> (r: Result<(), ApiError>)
        requires
            old(self).wf(),
        ensures
            final(self).wf(),
            !old(self).has_entry(id@) ==> r is Ok && final(self).spec_queue() == old(self).spec_queue(),
            old(self).has_entry(id@) && old(self).entry(id@).state != MergeState::Merged ==> (old(self).entry(
                id@,
            ).state == MergeState::Discarded || allowed(old(self).entry(id@).state, MergeState::Discarded)),
            old(self).has_entry(id@) && old(self).entry(id@).state == MergeState::Merged ==> (r matches Err(e)
                && e.has_code(RpcErrorCode::PreconditionFailed) && final(self).spec_queue() == old(self).spec_queue()),
            old(self).has_entry(id@) && old(self).entry(id@).state != MergeState::Merged ==> r is Ok && final(self).spec_queue() == old(self).spec_queue().update(
                old(self).entry_index(id@),
                MergeEntry { state: MergeState::Discarded, ..old(self).entry(id@) },
            ),
    {
        let k = match self.find(id) {
            Some(k) => k,
            None => return Ok(()),
        };
        if self.queue[k].state == MergeState::Merged {
            return Err(ApiError::precondition_failed(loop_message(id, "' is already merged")));
        }
        let commit = self.queue[k].merge_commit.clone();
        self.set_state(k, MergeState::Discarded, commit);
        Ok(())
    }

    /// Whether the worker must run: some loop is queued.
    pub fn needs_processing(&self) -> (r: bool)
        ensures
            r == exists|i: int| 0 <= i < self.spec_queue().len() && (#[trigger] self.spec_queue()[i]).state
                == MergeState::Queued,
    {
        let mut i: usize = 0;
        while i < self.queue.len()
            invariant
                0 <= i <= self.queue@.len(),
                forall|j: int| 0 <= j < i ==> (#[trigger] self.queue@[j]).state != MergeState::Queued,
            decreases self.queue@.len() - i,
        {
            if self.queue[i].state == MergeState::Queued {
                return true;
            }
            i = i + 1;
        }
        false
    }

    /// Stamps the time of the last successful processing.
    pub fn record_processed(&mut self, now: u64)
        requires
            old(self).wf(),
        ensures
            final(self).wf(),
            final(self).spec_last_processed() == Some(now),
            final(self).spec_queue() == old(self).spec_queue(),
            final(self).spec_interval() == old(self).spec_interval(),
    {
        self.last_processed_at = Some(now);
    }

    /// The processing status; `running` is whether the loop lock is held.
    pub fn status(&self, running: bool) -> (r: LoopStatusResult)
        ensures
            r.running == running,
            r.interval_ms == self.spec_interval(),
            r.last_processed_at == self.spec_last_processed(),
    {
        LoopStatusResult {
            running,
            interval_ms: self.process_interval_ms,
            last_processed_at: self.last_processed_at,
        }
    }

    /// Creates the task that merges a listed worktree loop. The in-place
    /// primary loop cannot be merged this way.
    pub fn trigger_merge_task(
        &self,
        params: LoopTriggerMergeTaskParams,
        record: Option<&LoopRecord>,
        tasks: &mut TaskDomain,
        now: u64,
    ) -> (r: Result<TriggerMergeTaskResult, ApiError>)
        requires
            old(tasks).wf(),
        ensures
            final(tasks).wf(),
            record is None ==> (r matches Err(e) && e.has_code(RpcErrorCode::LoopNotFound)
                && final(tasks).spec_tasks() == old(tasks).spec_tasks()),
            record matches Some(l) && l.location@ == "(in-place)"@ ==> (r matches Err(e) && e.has_code(RpcErrorCode::InvalidParams) && final(tasks).spec_tasks() == old(tasks).spec_tasks()),
            r matches Ok(res) ==> res.success && res.task_id@ == merge_task_id(params.loop_id@, now)
                && final(tasks).contains(res.task_id@) && final(tasks).task(res.task_id@).title@
                == merge_title(
                match record.unwrap().prompt {
                    Some(p) => p@,
                    None => params.loop_id@,
                },
            ) && final(tasks).task(res.task_id@).priority == 1 && final(tasks).task(res.task_id@).status
                == TaskStatus::Pending && final(tasks).task(res.task_id@).queued_task_id is Some && res.queued_task_id
                == final(tasks).task(res.task_id@).queued_task_id && final(tasks).task(res.task_id@).merge_loop_prompt is Some && final(tasks).task(
                res.task_id@,
            ).merge_loop_prompt.unwrap()@ == merge_instructions(
                params.loop_id@,
                record.unwrap().location@,
                match record.unwrap().prompt {
                    Some(p) => p@,
                    None => "(no prompt recorded)"@,
                },
            ),
            record matches Some(l) && l.location@ != "(in-place)"@ && !old(tasks).contains(
                merge_task_id(params.loop_id@, now),
            ) ==> r is Ok,
    {
        let l = match record {
            Some(l) => l,
            None => return Err(loop_not_found_error(params.loop_id.as_str())),
        };
        if str_eq(l.location.as_str(), "(in-place)") {
            return Err(
                ApiError::invalid_params("Cannot trigger merge for in-place loop (primary)".to_owned()),
            );
        }
        let prompt_text = match &l.prompt {
            Some(p) => p.clone(),
            None => "(no prompt recorded)".to_owned(),
        };
        let mut instructions = "Merge worktree loop '".to_owned();
        instructions.append(params.loop_id.as_str());
        instructions.append("' into main branch.\n\nThe worktree is located at: ");
        instructions.append(l.location.as_str());
        instructions.append("\nOriginal task: ");
        instructions.append(prompt_text.as_str());
        instructions.append(
            "\n\nInstructions:\n1. Review the commits in the worktree branch\n2. Merge the changes into main branch\n3. Resolve any conflicts if present\n4. Delete the worktree after successful merge",
        );
        let subject = match &l.prompt {
            Some(p) => p.clone(),
            None => params.loop_id.clone(),
        };
        let n = subject.as_str().unicode_len();
        let cut = if n <= 50 {
            n
        } else {
            50
        };
        let mut title = "Merge: ".to_owned();
        title.append(subject.as_str().substring_char(0, cut));
        let mut task_id = "merge-".to_owned();
        task_id.append(params.loop_id.as_str());
        task_id.append("-");
        push_decimal(&mut task_id, now);
        proof {
            assert(subject@.subrange(0, n as int) =~= subject@);
        }
        let create = TaskCreateParams {
            id: task_id,
            title,
            status: Some(TaskStatus::Open),
            priority: Some(1),
            blocked_by: None,
            auto_execute: Some(true),
            merge_loop_prompt: Some(instructions),
        };
        let task = tasks.create(create, now)?;
        proof {
            let k = choose|k: int|
                0 <= k <= old(tasks).spec_tasks().len() && tasks.spec_tasks() == old(tasks).spec_tasks().insert(k, task);
            assert(tasks.spec_tasks()[k] == task);
            tasks.lemma_index_of(k);
        }
        Ok(TriggerMergeTaskResult { success: true, task_id: task.id, queued_task_id: task.queued_task_id })
    }

    /// The loops of the workspace; merged and discarded ones only on request.
    pub fn list(&self, params: LoopListParams, primary: Option<PrimaryLoop>, registry: &Vec<RegisteredLoop>) -> (r: Vec<
        LoopRecord,
    >)
        ensures
            r@.map_values(|x: LoopRecord| rec_view(x)) == (if params.include_terminal == Some(true) {
                all_loops(primary, registry@, self.spec_queue())
            } else {
                all_loops(primary, registry@, self.spec_queue()).filter(live_pred())
            }),
    {
        let ghost rv = |x: LoopRecord| rec_view(x);
        let ghost q = self.queue@;
        let ghost reg = registry@;
        let mut loops: Vec<LoopRecord> = Vec::new();
        let mut ids: Vec<String> = Vec::new();
        match &primary {
            Some(p) => {
                loops.push(
                    LoopRecord {
                        id: "(primary)".to_owned(),
                        status: "running".to_owned(),
                        location: "(in-place)".to_owned(),
                        prompt: Some(p.prompt.clone()),
                        merge_commit: None,
                    },
                );
                ids.push("(primary)".to_owned());
                assert(loops@.map_values(rv) =~= primary_part(primary));
                assert(views(ids@) =~= listed_ids(primary, reg.subrange(0, 0)));
            },
            None => {
                assert(loops@.map_values(rv) =~= primary_part(primary));
                assert(views(ids@) =~= listed_ids(primary, reg.subrange(0, 0)));
            },
        }
        let mut i: usize = 0;
        while i < registry.len()
            invariant
                reg == registry@,
                rv == (|x: LoopRecord| rec_view(x)),
                0 <= i <= reg.len(),
                loops@.map_values(rv) == primary_part(primary) + reg.subrange(0, i as int).map_values(
                    |e: RegisteredLoop| registry_rec(e),
                ),
                views(ids@) == listed_ids(primary, reg.subrange(0, i as int)),
            decreases reg.len() - i,
        {
            let e = &registry[i];
            let ghost before = loops@;
            let ghost before_ids = ids@;
            let location = match &e.worktree_path {
                Some(w) => w.clone(),
                None => "(in-place)".to_owned(),
            };
            loops.push(
                LoopRecord {
                    id: e.id.clone(),
                    status: if e.alive {
                        "running".to_owned()
                    } else {
                        "crashed".to_owned()
                    },
                    location,
                    prompt: Some(e.prompt.clone()),
                    merge_commit: None,
                },
            );
            ids.push(e.id.clone());
            proof {
                assert(reg.subrange(0, i + 1) =~= reg.subrange(0, i as int).push(reg[i as int]));
                assert(rec_view(loops@.last()) == registry_rec(reg[i as int]));
                assert(loops@ =~= before.push(loops@.last()));
                assert(loops@.map_values(rv) =~= before.map_values(rv).push(rec_view(loops@.last())));
                assert(reg.subrange(0, i + 1).map_values(|e: RegisteredLoop| registry_rec(e)) =~= reg.subrange(
                    0,
                    i as int,
                ).map_values(|e: RegisteredLoop| registry_rec(e)).push(registry_rec(reg[i as int])));
                assert(views(ids@) =~= views(before_ids).push(reg[i as int].id@));
                assert(reg.subrange(0, i + 1).map_values(|e: RegisteredLoop| e.id@) =~= reg.subrange(
                    0,
                    i as int,
                ).map_values(|e: RegisteredLoop| e.id@).push(reg[i as int].id@));
                assert(loops@.map_values(rv) =~= primary_part(primary) + reg.subrange(0, i + 1).map_values(
                    |e: RegisteredLoop| registry_rec(e),
                ));
                assert(views(ids@) =~= listed_ids(primary, reg.subrange(0, i + 1)));
            }
            i = i + 1;
        }
        assert(reg.subrange(0, i as int) =~= reg);
        let ghost base = loops@.map_values(rv);
        let ghost pred = unlisted(listed_ids(primary, reg));
        let mut j: usize = 0;
        while j < self.queue.len()
            invariant
                q == self.queue@,
                rv == (|x: LoopRecord| rec_view(x)),
                pred == unlisted(listed_ids(primary, reg)),
                views(ids@) == listed_ids(primary, reg),
                0 <= j <= q.len(),
                loops@.map_values(rv) == base + q.subrange(0, j as int).filter(pred).map_values(
                    |e: MergeEntry| queue_rec(e),
                ),
            decreases q.len() - j,
        {
            let e = &self.queue[j];
            let seen = strings_contain(&ids, e.loop_id.as_str());
            let ghost before = loops@;
            if !seen {
                loops.push(
                    LoopRecord {
                        id: e.loop_id.clone(),
                        status: e.state.as_str().to_owned(),
                        location: match &e.merge_commit {
                            Some(c) => c.clone(),
                            None => "-".to_owned(),
                        },
                        prompt: Some(e.prompt.clone()),
                        merge_commit: match &e.merge_commit {
                            Some(c) => Some(c.clone()),
                            None => None,
                        },
                    },
                );
            }
            proof {
                reveal(Seq::filter);
                assert(q.subrange(0, j + 1).drop_last() =~= q.subrange(0, j as int));
                let f = q.subrange(0, j as int).filter(pred);
                if !seen {
                    assert(q.subrange(0, j + 1).filter(pred) == f.push(q[j as int]));
                    assert(f.push(q[j as int]).map_values(|e: MergeEntry| queue_rec(e)) =~= f.map_values(
                        |e: MergeEntry| queue_rec(e),
                    ).push(queue_rec(q[j as int])));
                    assert(loops@.map_values(rv) =~= before.map_values(rv).push(rec_view(loops@.last())));
                } else {
                    assert(q.subrange(0, j + 1).filter(pred) == f);
                }
            }
            j = j + 1;
        }
        assert(q.subrange(0, j as int) =~= q);
        let with_terminal = match params.include_terminal {
            Some(b) => b,
            None => false,
        };
        if with_terminal {
            return loops;
        }
        let ghost all = loops@.map_values(rv);
        let mut out: Vec<LoopRecord> = Vec::new();
        let mut k: usize = 0;
        while k < loops.len()
            invariant
                rv == (|x: LoopRecord| rec_view(x)),
                all == loops@.map_values(rv),
                0 <= k <= loops@.len(),
                out@.map_values(rv) == all.subrange(0, k as int).filter(live_pred()),
            decreases loops@.len() - k,
        {
            let x = &loops[k];
            let ghost before = out@;
            let terminal = str_eq(x.status.as_str(), "merged") || str_eq(x.status.as_str(), "discarded");
            if !terminal {
                out.push(
                    LoopRecord {
                        id: x.id.clone(),
                        status: x.status.clone(),
                        location: x.location.clone(),
                        prompt: match &x.prompt {
                            Some(p) => Some(p.clone()),
                            None => None,
                        },
                        merge_commit: match &x.merge_commit {
                            Some(c) => Some(c.clone()),
                            None => None,
                        },
                    },
                );
                assert(out@.map_values(rv) =~= before.map_values(rv).push(all[k as int]));
            }
            proof {
                reveal(Seq::filter);
                assert(all.subrange(0, k + 1).drop_last() =~= all.subrange(0, k as int));
            }
            k = k + 1;
        }
        assert(all.subrange(0, k as int) =~= all);
        out
    }

    /// The loop a discard applies to: a registry entry first, then a merge
    /// queue entry with its worktree, then a bare worktree (`worktree` is the
    /// one found for `loop_id`).
    pub fn resolve_discard_target(&self, loop_id: &str, registry: &Vec<RegisteredLoop>, worktree: Option<String>) -> (r:
        Result<ResolvedLoop, ApiError>)
        requires
            self.wf(),
        ensures
            (exists|i: int| 0 <= i < registry@.len() && (#[trigger] registry@[i]).id@ == loop_id@) ==> (r matches Ok(
                x,
            ) && x.id@ == loop_id@ && exists|i: int|
                0 <= i < registry@.len() && (#[trigger] registry@[i]).id@ == loop_id@ && x.worktree_path
                    == registry@[i].worktree_path),
            !(exists|i: int| 0 <= i < registry@.len() && (#[trigger] registry@[i]).id@ == loop_id@) && (
            self.has_entry(loop_id@) || worktree is Some) ==> (r matches Ok(x) && x.id@ == loop_id@
                && x.worktree_path == worktree),
            !(exists|i: int| 0 <= i < registry@.len() && (#[trigger] registry@[i]).id@ == loop_id@)
                && !self.has_entry(loop_id@) && worktree is None ==> (r matches Err(e) && e.has_code(RpcErrorCode::LoopNotFound)),
    {
        let mut i: usize = 0;
        while i < registry.len()
            invariant
                0 <= i <= registry@.len(),
                forall|j: int| 0 <= j < i ==> (#[trigger] registry@[j]).id@ != loop_id@,
            decreases registry@.len() - i,
        {
            if str_eq(registry[i].id.as_str(), loop_id) {
                let path = match &registry[i].worktree_path {
                    Some(p) => Some(p.clone()),
                    None => None,
                };
                return Ok(ResolvedLoop { id: registry[i].id.clone(), worktree_path: path });
            }
            i = i + 1;
        }
        if self.find(loop_id).is_some() || worktree.is_some() {
            return Ok(ResolvedLoop { id: loop_id.to_owned(), worktree_path: worktree });
        }
        Err(loop_not_found_error(loop_id))
    }
}

} // verus!
