//! Mathematical model of the job queue: its state, its transitions, and the
//! laws that every reachable state obeys.

use crate::jobs::{
    cancelled_job, fresh_job, progressed_job, started_job, JobProgressView, JobTypeView, JobView,
    MAX_PARALLEL_JOBS, MIN_PARALLEL_JOBS,
};
use vstd::prelude::*;

verus! {

/// State of a job queue.
pub struct QueueState {
    /// Waiting jobs, oldest first.
    pub queued: Seq<JobView>,
    /// Jobs that hold an execution slot, keyed by file path.
    pub running: Map<Seq<char>, JobView>,
    /// Limit on running jobs.
    pub max_parallel: nat,
}

/// Outcome of an enqueue request.
pub enum StartOutcome {
    Started(Seq<char>),
    Queued(Seq<char>),
    AlreadyExists(Seq<char>),
}

/// Index of the first job for `path` in `queued`, or `queued.len()` if there is none.
pub open spec fn first_queued(queued: Seq<JobView>, path: Seq<char>) -> int
    decreases queued.len(),
{
    if queued.len() == 0 {
        0
    } else if queued[0].path == path {
        0
    } else {
        1 + first_queued(queued.drop_first(), path)
    }
}

/// `first_queued` is a position in the sequence or its length, it points at a
/// job for `path` when it is a position, and no earlier job is for `path`.
pub proof fn lemma_first_queued(queued: Seq<JobView>, path: Seq<char>)
    ensures
        0 <= first_queued(queued, path) <= queued.len(),
        first_queued(queued, path) < queued.len() ==> queued[first_queued(queued, path)].path
            == path,
        forall|i: int| 0 <= i < first_queued(queued, path) ==> (#[trigger] queued[i]).path != path,
    decreases queued.len(),
{
    if queued.len() > 0 && queued[0].path != path {
        let rest = queued.drop_first();
        lemma_first_queued(rest, path);
        assert forall|i: int| 0 <= i < first_queued(queued, path) implies (#[trigger] queued[i]).path
            != path by {
            if i > 0 {
                assert(queued[i] == rest[i - 1]);
            }
        }
    }
}

/// A job that joins the back of the queue leaves the first job of every
/// path that waits where it was.
pub proof fn lemma_first_queued_push(queued: Seq<JobView>, job: JobView, path: Seq<char>)
    requires
        first_queued(queued, path) < queued.len(),
    ensures
        first_queued(queued.push(job), path) == first_queued(queued, path),
    decreases queued.len(),
{
    if queued.len() > 0 && queued[0].path != path {
        assert(queued.push(job).drop_first() =~= queued.drop_first().push(job));
        lemma_first_queued_push(queued.drop_first(), job, path);
    }
}

/// The limit that a request for `count` parallel jobs results in.
pub open spec fn clamp_parallel(count: nat) -> nat {
    if count < MIN_PARALLEL_JOBS {
        MIN_PARALLEL_JOBS as nat
    } else if count > MAX_PARALLEL_JOBS {
        MAX_PARALLEL_JOBS as nat
    } else {
        count
    }
}

impl QueueState {
    /// The state of a new queue with the given limit.
    pub open spec fn empty(max_parallel: nat) -> QueueState {
        QueueState { queued: Seq::empty(), running: Map::empty(), max_parallel }
    }

    /// The same queue with another running set.
    pub open spec fn with_running(self, running: Map<Seq<char>, JobView>) -> QueueState {
        QueueState { running, ..self }
    }

    /// Whether a job for `path` is waiting.
    pub open spec fn has_queued(self, path: Seq<char>) -> bool {
        first_queued(self.queued, path) < self.queued.len()
    }

    /// Whether a job for `path` is waiting or running.
    pub open spec fn has_job(self, path: Seq<char>) -> bool {
        self.running.contains_key(path) || self.has_queued(path)
    }

    /// Number of running jobs. A running job that has been cancelled holds
    /// its slot until it is completed.
    pub open spec fn running_count(self) -> nat {
        self.running.dom().len()
    }

    /// Paths of the running jobs that have not been cancelled.
    pub open spec fn active(self) -> Set<Seq<char>> {
        self.running.dom().filter(|p: Seq<char>| !self.running[p].cancelled)
    }

    /// Number of running jobs that have not been cancelled.
    pub open spec fn active_count(self) -> nat {
        self.active().len()
    }

    /// Structural invariant of the queue.
    ///
    /// Running jobs are filed under their own path and have started, waiting
    /// jobs have neither started nor been cancelled, and no path has more than
    /// one job across both collections.
    pub open spec fn wf(self) -> bool {
        &&& self.running.dom().finite()
        &&& MIN_PARALLEL_JOBS <= self.max_parallel <= MAX_PARALLEL_JOBS
        &&& forall|p: Seq<char>| #[trigger]
            self.running.contains_key(p) ==> self.running[p].path == p && self.running[p].started
        &&& forall|i: int|
            0 <= i < self.queued.len() ==> {
                &&& !(#[trigger] self.queued[i]).started
                &&& !self.queued[i].cancelled
                &&& !self.running.contains_key(self.queued[i].path)
            }
        &&& forall|i: int, j: int|
            0 <= i < j < self.queued.len() ==> (#[trigger] self.queued[i]).path != (
            #[trigger] self.queued[j]).path
    }

    /// No more jobs run than the limit allows.
    pub open spec fn within_capacity(self) -> bool {
        self.running_count() <= self.max_parallel
    }

    /// Identifier of the job that exists for `path`.
    pub open spec fn existing_id(self, path: Seq<char>) -> Seq<char>
        recommends
            self.has_job(path),
    {
        if self.running.contains_key(path) {
            self.running[path].id
        } else {
            self.queued[first_queued(self.queued, path)].id
        }
    }

    /// State after a request to enqueue a job for `path`.
    pub open spec fn enqueue(self, path: Seq<char>, id: Seq<char>, kind: JobTypeView) -> QueueState {
        if self.has_job(path) {
            self
        } else if self.running_count() < self.max_parallel {
            QueueState {
                running: self.running.insert(path, started_job(fresh_job(path, id, kind))),
                ..self
            }
        } else {
            QueueState { queued: self.queued.push(fresh_job(path, id, kind)), ..self }
        }
    }

    /// Answer to a request to enqueue a job for `path`.
    pub open spec fn enqueue_outcome(self, path: Seq<char>, id: Seq<char>) -> StartOutcome {
        if self.has_job(path) {
            StartOutcome::AlreadyExists(self.existing_id(path))
        } else if self.running_count() < self.max_parallel {
            StartOutcome::Started(id)
        } else {
            StartOutcome::Queued(id)
        }
    }

    /// State after moving the oldest waiting job into an execution slot.
    pub open spec fn promote_one(self) -> QueueState
        recommends
            self.queued.len() > 0,
    {
        QueueState {
            queued: self.queued.drop_first(),
            running: self.running.insert(self.queued[0].path, started_job(self.queued[0])),
            ..self
        }
    }

    /// State after promoting waiting jobs, oldest first, for as long as a
    /// slot is free and a job waits.
    pub open spec fn promote(self) -> QueueState
        decreases self.queued.len(),
    {
        if self.running_count() < self.max_parallel && self.queued.len() > 0 {
            self.promote_one().promote()
        } else {
            self
        }
    }

    /// Number of waiting jobs that a promotion moves: as many as there are
    /// free slots, and no more than wait.
    pub open spec fn promoted_count(self) -> nat {
        let free = if self.running_count() < self.max_parallel {
            (self.max_parallel - self.running_count()) as nat
        } else {
            0
        };
        if free < self.queued.len() {
            free
        } else {
            self.queued.len()
        }
    }

    /// State after the job for `path` finished: it leaves the running set and
    /// waiting jobs are promoted into free slots.
    pub open spec fn complete(self, path: Seq<char>) -> QueueState {
        QueueState { running: self.running.remove(path), ..self }.promote()
    }

    /// State after a request to cancel the job for `path`: a running job has
    /// its flag raised and stays, a waiting job is removed.
    pub open spec fn cancel(self, path: Seq<char>) -> QueueState {
        if self.running.contains_key(path) {
            QueueState {
                running: self.running.insert(path, cancelled_job(self.running[path])),
                ..self
            }
        } else if self.has_queued(path) {
            QueueState { queued: self.queued.remove(first_queued(self.queued, path)), ..self }
        } else {
            self
        }
    }

    /// State after cancelling everything: every running job has its flag
    /// raised and no job waits.
    pub open spec fn cancel_all(self) -> QueueState {
        QueueState {
            queued: Seq::empty(),
            running: self.running.map_values(|job: JobView| cancelled_job(job)),
            ..self
        }
    }

    /// State after a request to change the limit to `count`: the limit is
    /// clamped, and waiting jobs are promoted only if the limit grew.
    pub open spec fn set_max_parallel(self, count: nat) -> QueueState {
        let resized = QueueState { max_parallel: clamp_parallel(count), ..self };
        if clamp_parallel(count) > self.max_parallel {
            resized.promote()
        } else {
            resized
        }
    }

    /// State after the running job for `path` reported progress.
    pub open spec fn update_progress(self, path: Seq<char>, progress: JobProgressView) -> QueueState {
        if self.running.contains_key(path) {
            QueueState {
                running: self.running.insert(path, progressed_job(self.running[path], progress)),
                ..self
            }
        } else {
            self
        }
    }
}

/// One request to the queue.
pub enum QueueOp {
    Enqueue { path: Seq<char>, id: Seq<char>, kind: JobTypeView },
    Complete { path: Seq<char> },
    Cancel { path: Seq<char> },
}

/// State after one request.
pub open spec fn apply_op(state: QueueState, op: QueueOp) -> QueueState {
    match op {
        QueueOp::Enqueue { path, id, kind } => state.enqueue(path, id, kind),
        QueueOp::Complete { path } => state.complete(path),
        QueueOp::Cancel { path } => state.cancel(path),
    }
}

/// State after a sequence of requests, applied in order.
pub open spec fn apply_ops(state: QueueState, ops: Seq<QueueOp>) -> QueueState
    decreases ops.len(),
{
    if ops.len() == 0 {
        state
    } else {
        apply_ops(apply_op(state, ops[0]), ops.drop_first())
    }
}

/// The running jobs that have not been cancelled are no more than the
/// running jobs.
pub proof fn lemma_active_within_running(state: QueueState)
    requires
        state.running.dom().finite(),
    ensures
        state.active_count() <= state.running_count(),
{
    state.running.dom().lemma_len_filter(|p: Seq<char>| !state.running[p].cancelled);
}

/// Filing an uncancelled job under a path that has no running job adds that
/// path to the active set.
pub proof fn lemma_active_insert_new(state: QueueState, path: Seq<char>, job: JobView)
    requires
        state.running.dom().finite(),
        !state.running.contains_key(path),
        !job.cancelled,
    ensures
        state.with_running(state.running.insert(path, job)).active() == state.active().insert(path),
        state.with_running(state.running.insert(path, job)).active_count() == state.active_count()
            + 1,
        state.active().finite(),
{
    let after = QueueState { running: state.running.insert(path, job), ..state };
    assert(after.active() =~= state.active().insert(path));
    state.running.dom().lemma_len_filter(|p: Seq<char>| !state.running[p].cancelled);
}

/// Replacing a running job by a copy that differs at most in its cancel flag
/// being raised never enlarges the active set; replacing it by a copy with
/// the same flag leaves the active set as it was.
pub proof fn lemma_active_replace(state: QueueState, path: Seq<char>, job: JobView)
    requires
        state.running.dom().finite(),
        state.running.contains_key(path),
        job.cancelled || !state.running[path].cancelled,
    ensures
        state.with_running(state.running.insert(path, job)).active_count() <= state.active_count(),
        job.cancelled == state.running[path].cancelled ==> state.with_running(
            state.running.insert(path, job),
        ).active() == state.active(),
        state.active().finite(),
{
    let after = QueueState { running: state.running.insert(path, job), ..state };
    state.running.dom().lemma_len_filter(|p: Seq<char>| !state.running[p].cancelled);
    if job.cancelled {
        assert(after.active() =~= state.active().remove(path));
        if state.running[path].cancelled {
            assert(state.active().remove(path) =~= state.active());
        }
    } else {
        assert(after.active() =~= state.active());
    }
}

/// Taking a job out of the running set never enlarges the active set.
pub proof fn lemma_active_remove(state: QueueState, path: Seq<char>)
    requires
        state.running.dom().finite(),
    ensures
        state.with_running(state.running.remove(path)).active_count() <= state.active_count(),
        state.active().finite(),
{
    let after = QueueState { running: state.running.remove(path), ..state };
    state.running.dom().lemma_len_filter(|p: Seq<char>| !state.running[p].cancelled);
    assert(after.active() =~= state.active().remove(path));
}

/// Promoting the oldest waiting job keeps the queue well formed and fills
/// exactly one slot.
pub proof fn lemma_promote_one(state: QueueState)
    requires
        state.wf(),
        state.queued.len() > 0,
    ensures
        state.promote_one().wf(),
        state.promote_one().running_count() == state.running_count() + 1,
        state.promote_one().active_count() == state.active_count() + 1,
        state.promote_one().max_parallel == state.max_parallel,
{
    let head = state.queued[0];
    let after = state.promote_one();
    lemma_active_insert_new(state, head.path, started_job(head));
    assert(after.running.dom() =~= state.running.dom().insert(head.path));
    assert forall|i: int| 0 <= i < after.queued.len() implies {
        &&& !(#[trigger] after.queued[i]).started
        &&& !after.queued[i].cancelled
        &&& !after.running.contains_key(after.queued[i].path)
    } by {
        assert(after.queued[i] == state.queued[i + 1]);
    }
    assert forall|i: int, j: int| 0 <= i < j < after.queued.len() implies (
    #[trigger] after.queued[i]).path != (#[trigger] after.queued[j]).path by {
        assert(after.queued[i] == state.queued[i + 1]);
        assert(after.queued[j] == state.queued[j + 1]);
    }
}

/// Promoting the oldest waiting job neither adds nor loses a job: a job
/// that ran goes on as it was, the oldest waiting job runs, and every other
/// waiting job moves up one place.
pub proof fn lemma_promote_one_jobs(state: QueueState, path: Seq<char>)
    requires
        state.wf(),
        state.queued.len() > 0,
    ensures
        state.promote_one().has_job(path) == state.has_job(path),
        state.running.contains_key(path) ==> state.promote_one().running.contains_key(path)
            && state.promote_one().running[path] == state.running[path],
        state.has_queued(path) && first_queued(state.queued, path) == 0
            ==> state.promote_one().running.contains_key(path) && path == state.queued[0].path
            && !state.running.contains_key(path),
        state.has_queued(path) && first_queued(state.queued, path) > 0
            ==> !state.promote_one().running.contains_key(path) && first_queued(
            state.promote_one().queued,
            path,
        ) == first_queued(state.queued, path) - 1,
{
    lemma_first_queued(state.queued, path);
    lemma_first_queued(state.queued.drop_first(), path);
    if state.queued[0].path != path && state.has_queued(path) {
        lemma_position_of(state, first_queued(state.queued, path));
    }
}

/// Promotion neither adds nor loses a job.
pub proof fn lemma_promote_same_jobs(state: QueueState, path: Seq<char>)
    requires
        state.wf(),
    ensures
        state.promote().has_job(path) == state.has_job(path),
    decreases state.queued.len(),
{
    if state.running_count() < state.max_parallel && state.queued.len() > 0 {
        lemma_promote_one(state);
        lemma_promote_one_jobs(state, path);
        lemma_promote_same_jobs(state.promote_one(), path);
    }
}

/// Promotion keeps the queue well formed, keeps the limit, and fills slots
/// only up to the limit.
pub proof fn lemma_promote(state: QueueState)
    requires
        state.wf(),
    ensures
        state.promote().wf(),
        state.promote().max_parallel == state.max_parallel,
        state.within_capacity() ==> state.promote().within_capacity(),
        state.promote().running_count() >= state.max_parallel || state.promote().queued.len() == 0,
    decreases state.queued.len(),
{
    if state.running_count() < state.max_parallel && state.queued.len() > 0 {
        lemma_promote_one(state);
        lemma_promote(state.promote_one());
    }
}

/// Promotion moves exactly the oldest waiting jobs, one for each free slot:
/// they leave the front of the queue in their order and run as started
/// jobs, the other waiting jobs keep their order, and the jobs that ran
/// before are as they were.
pub proof fn lemma_promote_moves(state: QueueState)
    requires
        state.wf(),
    ensures
        state.promote().queued == state.queued.skip(state.promoted_count() as int),
        state.promote().running_count() == state.running_count() + state.promoted_count(),
        forall|i: int|
            0 <= i < state.promoted_count() ==> state.promote().running.contains_key(
                (#[trigger] state.queued[i]).path,
            ) && state.promote().running[state.queued[i].path] == started_job(state.queued[i]),
        forall|p: Seq<char>| #[trigger]
            state.running.contains_key(p) ==> state.promote().running.contains_key(p)
                && state.promote().running[p] == state.running[p],
    decreases state.queued.len(),
{
    let m = state.promoted_count() as int;
    if state.running_count() < state.max_parallel && state.queued.len() > 0 {
        let one = state.promote_one();
        lemma_promote_one(state);
        lemma_promote_moves(one);
        assert(one.promoted_count() == m - 1);
        assert(one.queued.skip(m - 1) =~= state.queued.skip(m));
        assert forall|i: int| 0 <= i < m implies state.promote().running.contains_key(
            (#[trigger] state.queued[i]).path,
        ) && state.promote().running[state.queued[i].path] == started_job(state.queued[i]) by {
            if i == 0 {
                assert(one.running.contains_key(state.queued[0].path));
            } else {
                assert(state.queued[i] == one.queued[i - 1]);
            }
        }
        assert forall|p: Seq<char>| #[trigger] state.running.contains_key(p) implies state.promote(
        ).running.contains_key(p) && state.promote().running[p] == state.running[p] by {
            assert(p != state.queued[0].path);
            assert(one.running.contains_key(p));
        }
    } else {
        assert(state.queued.skip(0) =~= state.queued);
    }
}

/// Promotion changes nothing when no slot is free or no job waits.
pub proof fn lemma_promote_idle(state: QueueState)
    requires
        state.running_count() >= state.max_parallel || state.queued.len() == 0,
    ensures
        state.promote() == state,
{
}

/// Every request keeps the queue well formed.
pub proof fn lemma_enqueue_wf(state: QueueState, path: Seq<char>, id: Seq<char>, kind: JobTypeView)
    requires
        state.wf(),
    ensures
        state.enqueue(path, id, kind).wf(),
        state.within_capacity() ==> state.enqueue(path, id, kind).within_capacity(),
{
    let after = state.enqueue(path, id, kind);
    lemma_first_queued(state.queued, path);
    if state.has_job(path) {
    } else if state.running_count() < state.max_parallel {
        assert(after.running.dom() =~= state.running.dom().insert(path));
    }
}

/// Completion keeps the queue well formed and within its limit.
pub proof fn lemma_complete_wf(state: QueueState, path: Seq<char>)
    requires
        state.wf(),
    ensures
        state.complete(path).wf(),
        state.within_capacity() ==> state.complete(path).within_capacity(),
{
    let removed = QueueState { running: state.running.remove(path), ..state };
    assert(removed.running.dom() =~= state.running.dom().remove(path));
    lemma_promote(removed);
}

/// Cancellation keeps the queue well formed and within its limit.
pub proof fn lemma_cancel_wf(state: QueueState, path: Seq<char>)
    requires
        state.wf(),
    ensures
        state.cancel(path).wf(),
        state.within_capacity() ==> state.cancel(path).within_capacity(),
{
    let after = state.cancel(path);
    lemma_first_queued(state.queued, path);
    if state.running.contains_key(path) {
        assert(after.running.dom() =~= state.running.dom());
    } else if state.has_queued(path) {
        let k = first_queued(state.queued, path);
        assert forall|i: int| 0 <= i < after.queued.len() implies {
            &&& !(#[trigger] after.queued[i]).started
            &&& !after.queued[i].cancelled
            &&& !after.running.contains_key(after.queued[i].path)
        } by {
            if i < k {
                assert(after.queued[i] == state.queued[i]);
            } else {
                assert(after.queued[i] == state.queued[i + 1]);
            }
        }
        assert forall|i: int, j: int| 0 <= i < j < after.queued.len() implies (
        #[trigger] after.queued[i]).path != (#[trigger] after.queued[j]).path by {
            let si = if i < k { i } else { i + 1 };
            let sj = if j < k { j } else { j + 1 };
            assert(after.queued[i] == state.queued[si]);
            assert(after.queued[j] == state.queued[sj]);
        }
    }
}

/// Cancelling everything keeps the queue well formed and within its limit,
/// and leaves no job that has not been cancelled.
pub proof fn lemma_cancel_all_wf(state: QueueState)
    requires
        state.wf(),
    ensures
        state.cancel_all().wf(),
        state.cancel_all().active_count() == 0,
        state.cancel_all().running_count() == state.running_count(),
        state.within_capacity() ==> state.cancel_all().within_capacity(),
{
    let after = state.cancel_all();
    assert(after.running.dom() =~= state.running.dom());
    assert(after.active() =~= Set::<Seq<char>>::empty());
}

/// A change of the limit keeps the queue well formed. It keeps the queue
/// within its limit whenever the new limit is not below the number of
/// running jobs.
pub proof fn lemma_set_max_parallel_wf(state: QueueState, count: nat)
    requires
        state.wf(),
    ensures
        state.set_max_parallel(count).wf(),
        state.set_max_parallel(count).max_parallel == clamp_parallel(count),
        state.running_count() <= clamp_parallel(count) ==> state.set_max_parallel(
            count,
        ).within_capacity(),
{
    let resized = QueueState { max_parallel: clamp_parallel(count), ..state };
    if clamp_parallel(count) > state.max_parallel {
        lemma_promote(resized);
    }
}

/// A progress report keeps the queue well formed and its active set unchanged.
pub proof fn lemma_update_progress_wf(state: QueueState, path: Seq<char>, progress: JobProgressView)
    requires
        state.wf(),
    ensures
        state.update_progress(path, progress).wf(),
        state.update_progress(path, progress).active() == state.active(),
        state.update_progress(path, progress).running_count() == state.running_count(),
{
    if state.running.contains_key(path) {
        lemma_active_replace(state, path, progressed_job(state.running[path], progress));
        assert(state.update_progress(path, progress).running.dom() =~= state.running.dom());
    }
}

/// Queue safety: after any sequence of enqueue, complete and cancel requests
/// on a well-formed queue that is within its limit, the queue is still well
/// formed and no more jobs run than the limit allows, cancelled jobs that
/// still hold their slot included.
pub proof fn lemma_queue_safety(state: QueueState, ops: Seq<QueueOp>)
    requires
        state.wf(),
        state.within_capacity(),
    ensures
        apply_ops(state, ops).wf(),
        apply_ops(state, ops).within_capacity(),
    decreases ops.len(),
{
    if ops.len() > 0 {
        match ops[0] {
            QueueOp::Enqueue { path, id, kind } => lemma_enqueue_wf(state, path, id, kind),
            QueueOp::Complete { path } => lemma_complete_wf(state, path),
            QueueOp::Cancel { path } => lemma_cancel_wf(state, path),
        }
        lemma_queue_safety(apply_op(state, ops[0]), ops.drop_first());
    }
}

/// Uniqueness: in a well-formed queue no path has both a waiting and a
/// running job, and no path waits twice.
pub proof fn lemma_unique_paths(state: QueueState, path: Seq<char>)
    requires
        state.wf(),
    ensures
        !(state.running.contains_key(path) && state.has_queued(path)),
        forall|i: int, j: int|
            0 <= i < state.queued.len() && 0 <= j < state.queued.len() && state.queued[i].path
                == path && state.queued[j].path == path ==> i == j,
{
    lemma_first_queued(state.queued, path);
    assert forall|i: int, j: int|
        0 <= i < state.queued.len() && 0 <= j < state.queued.len() && state.queued[i].path == path
            && state.queued[j].path == path implies i == j by {
        if i < j {
            assert(state.queued[i].path != state.queued[j].path);
        } else if j < i {
            assert(state.queued[j].path != state.queued[i].path);
        }
    }
}

/// In a well-formed queue a waiting job is the first, and the only, job of
/// its path.
pub proof fn lemma_position_of(state: QueueState, k: int)
    requires
        state.wf(),
        0 <= k < state.queued.len(),
    ensures
        first_queued(state.queued, state.queued[k].path) == k,
        !state.running.contains_key(state.queued[k].path),
        state.has_job(state.queued[k].path),
{
    let path = state.queued[k].path;
    lemma_first_queued(state.queued, path);
    let first = first_queued(state.queued, path);
    if first < k {
        assert(state.queued[first].path != state.queued[k].path);
    }
}

/// A new queue is well formed and within its limit.
pub proof fn lemma_empty_wf(max_parallel: nat)
    requires
        MIN_PARALLEL_JOBS <= max_parallel <= MAX_PARALLEL_JOBS,
    ensures
        QueueState::empty(max_parallel).wf(),
        QueueState::empty(max_parallel).within_capacity(),
        QueueState::empty(max_parallel).running_count() == 0,
        QueueState::empty(max_parallel).active_count() == 0,
{
    assert(QueueState::empty(max_parallel).active() =~= Set::<Seq<char>>::empty());
    assert(QueueState::empty(max_parallel).running.dom() =~= Set::<Seq<char>>::empty());
}

/// Cancelling a waiting job removes it, and a following request to enqueue
/// the same path is accepted under the new identifier.
pub proof fn lemma_cancel_then_enqueue(
    state: QueueState,
    path: Seq<char>,
    id: Seq<char>,
    kind: JobTypeView,
)
    requires
        state.wf(),
        state.has_queued(path),
    ensures
        !state.cancel(path).has_job(path),
        state.cancel(path).enqueue_outcome(path, id) == StartOutcome::Started(id)
            || state.cancel(path).enqueue_outcome(path, id) == StartOutcome::Queued(id),
        state.cancel(path).enqueue(path, id, kind).has_job(path),
{
    let k = first_queued(state.queued, path);
    let after = state.cancel(path);
    lemma_first_queued(state.queued, path);
    lemma_unique_paths(state, path);
    lemma_first_queued(after.queued, path);
    let k2 = first_queued(after.queued, path);
    if k2 < after.queued.len() {
        let s2 = if k2 < k { k2 } else { k2 + 1 };
        assert(after.queued[k2] == state.queued[s2]);
        assert(false);
    }
    let last = after.enqueue(path, id, kind);
    if after.running_count() < after.max_parallel {
    } else {
        lemma_first_queued(last.queued, path);
        let k3 = first_queued(last.queued, path);
        if k3 >= last.queued.len() {
            assert(last.queued[last.queued.len() - 1].path == path);
            assert(false);
        }
    }
}

/// Asking for the same limit twice has the effect of asking once: the second
/// request changes nothing and promotes no job.
pub proof fn lemma_set_max_parallel_idempotent(state: QueueState, count: nat)
    ensures
        state.set_max_parallel(count).set_max_parallel(count) == state.set_max_parallel(count),
{
    let resized = QueueState { max_parallel: clamp_parallel(count), ..state };
    lemma_promote_keeps_limit(resized);
    let once = state.set_max_parallel(count);
    assert(once.max_parallel == clamp_parallel(count));
    assert(QueueState { max_parallel: clamp_parallel(count), ..once } == once);
}

/// Promotion never changes the limit.
pub proof fn lemma_promote_keeps_limit(state: QueueState)
    ensures
        state.promote().max_parallel == state.max_parallel,
    decreases state.queued.len(),
{
    if state.running_count() < state.max_parallel && state.queued.len() > 0 {
        lemma_promote_keeps_limit(state.promote_one());
    }
}

/// Once raised, a cancel flag stays raised: no request lowers the flag of a
/// job that remains in the running set.
pub proof fn lemma_cancel_flag_is_monotone(state: QueueState, op: QueueOp, path: Seq<char>)
    requires
        state.wf(),
        state.running.contains_key(path),
        state.running[path].cancelled,
        apply_op(state, op).running.contains_key(path),
        op != (QueueOp::Complete { path }),
    ensures
        apply_op(state, op).running[path].cancelled,
{
    match op {
        QueueOp::Enqueue { path: p, id, kind } => {
            lemma_first_queued(state.queued, p);
        },
        QueueOp::Complete { path: p } => {
            let removed = QueueState { running: state.running.remove(p), ..state };
            lemma_active_remove(state, p);
            assert(removed.wf());
            lemma_promote_keeps_running(removed, path);
        },
        QueueOp::Cancel { path: p } => {},
    }
}

/// Promotion leaves every job that already runs as it is.
pub proof fn lemma_promote_keeps_running(state: QueueState, path: Seq<char>)
    requires
        state.wf(),
        state.running.contains_key(path),
    ensures
        state.promote().running.contains_key(path),
        state.promote().running[path] == state.running[path],
    decreases state.queued.len(),
{
    if state.running_count() < state.max_parallel && state.queued.len() > 0 {
        lemma_promote_one(state);
        lemma_promote_keeps_running(state.promote_one(), path);
    }
}

} // verus!
