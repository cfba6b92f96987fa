//! Bounded-parallel job queue keyed by file path.
//!
//! A queue owns every job from the moment it is enqueued until it is
//! completed or cancelled. Jobs either run (at most `max_parallel` of them
//! at a time, cancelled jobs that have not been completed yet included) or
//! wait in first-in-first-out order. All state
//! changes are described by pure transition functions over [`QueueState`],
//! and every executable operation is proved to follow its transition.

use crate::queue_model::{
    first_queued, lemma_cancel_all_wf, lemma_cancel_wf, lemma_complete_wf, lemma_empty_wf,
    lemma_enqueue_wf, lemma_first_queued, lemma_promote_one, lemma_set_max_parallel_wf,
    lemma_update_progress_wf, QueueState, StartOutcome,
};
use dashmap::DashMap;
use std::collections::VecDeque;
use std::time::Instant;
use vstd::prelude::*;

verus! {

/// Smallest accepted parallelism limit.
pub const MIN_PARALLEL_JOBS: usize = 1;

/// Largest accepted parallelism limit.
pub const MAX_PARALLEL_JOBS: usize = 8;

/// Parallelism limit of a freshly created queue.
pub const DEFAULT_PARALLEL_JOBS: usize = 4;

/// `std::time::Instant`, carried through the queue as an opaque clock reading.
#[verifier::external_type_specification]
#[verifier::external_body]
pub struct ExInstant(std::time::Instant);

/// `std::time::Instant::now`: reads the monotonic clock. Nothing is claimed
/// about the reading.
pub assume_specification[ Instant::now ]() -> (t: Instant);

/// `dashmap::DashMap`, the concurrent map that holds the running jobs.
#[verifier::external_type_specification]
#[verifier::external_body]
#[verifier::reject_recursive_types(K)]
#[verifier::reject_recursive_types(V)]
#[verifier::reject_recursive_types(S)]
pub struct ExDashMap<K, V, S>(DashMap<K, V, S>);

/// Progress of a job as last reported by its worker.
#[derive(Debug)]
pub struct JobProgress {
    pub current: usize,
    pub total: usize,
    /// Whole percent, 0 to 100.
    pub percentage: u64,
    pub stage: String,
}

/// Mathematical value of a [`JobProgress`].
pub struct JobProgressView {
    pub current: nat,
    pub total: nat,
    pub percentage: nat,
    pub stage: Seq<char>,
}

impl View for JobProgress {
    type V = JobProgressView;

    open spec fn view(&self) -> JobProgressView {
        JobProgressView {
            current: self.current as nat,
            total: self.total as nat,
            percentage: self.percentage as nat,
            stage: self.stage@,
        }
    }
}

/// Progress of a job that has reported nothing yet.
pub open spec fn initial_progress() -> JobProgressView {
    JobProgressView { current: 0, total: 100, percentage: 0, stage: "Starting..."@ }
}

impl Default for JobProgress {
    fn default() -> (r: Self)
        ensures
            r@ == initial_progress(),
    {
        JobProgress {
            current: 0,
            total: 100,
            percentage: 0,
            stage: String::from_str("Starting..."),
        }
    }
}

impl Clone for JobProgress {
    fn clone(&self) -> (r: Self)
        ensures
            r@ == self@,
    {
        JobProgress {
            current: self.current,
            total: self.total,
            percentage: self.percentage,
            stage: self.stage.clone(),
        }
    }
}

/// What a job does.
#[derive(Debug)]
pub enum JobType {
    BitrateAnalysis,
    StreamRemoval { stream_indices: Vec<i32>, overwrite: bool },
    DependencyInstallation { tool: String, method: String },
}

/// Mathematical value of a [`JobType`].
pub enum JobTypeView {
    BitrateAnalysis,
    StreamRemoval { stream_indices: Seq<i32>, overwrite: bool },
    DependencyInstallation { tool: Seq<char>, method: Seq<char> },
}

impl View for JobType {
    type V = JobTypeView;

    open spec fn view(&self) -> JobTypeView {
        match self {
            JobType::BitrateAnalysis => JobTypeView::BitrateAnalysis,
            JobType::StreamRemoval { stream_indices, overwrite } => JobTypeView::StreamRemoval {
                stream_indices: stream_indices@,
                overwrite: *overwrite,
            },
            JobType::DependencyInstallation { tool, method } => JobTypeView::DependencyInstallation {
                tool: tool@,
                method: method@,
            },
        }
    }
}

/// Wire name of a job type.
pub open spec fn job_type_name(kind: JobTypeView) -> Seq<char> {
    match kind {
        JobTypeView::BitrateAnalysis => "bitrate_analysis"@,
        JobTypeView::StreamRemoval { .. } => "stream_removal"@,
        JobTypeView::DependencyInstallation { .. } => "dependency_installation"@,
    }
}

impl JobType {
    /// Wire name of this job type.
    pub fn name(&self) -> (r: &'static str)
        ensures
            r@ == job_type_name(self@),
    {
        match self {
            JobType::BitrateAnalysis => "bitrate_analysis",
            JobType::StreamRemoval { .. } => "stream_removal",
            JobType::DependencyInstallation { .. } => "dependency_installation",
        }
    }
}

impl Clone for JobType {
    fn clone(&self) -> (r: Self)
        ensures
            r@ == self@,
    {
        match self {
            JobType::BitrateAnalysis => JobType::BitrateAnalysis,
            JobType::StreamRemoval { stream_indices, overwrite } => {
                let mut copy: Vec<i32> = Vec::new();
                let mut i: usize = 0;
                while i < stream_indices.len()
                    invariant
                        i <= stream_indices.len(),
                        copy@ == stream_indices@.take(i as int),
                    decreases stream_indices.len() - i,
                {
                    copy.push(stream_indices[i]);
                    i += 1;
                    assert(copy@ =~= stream_indices@.take(i as int));
                }
                assert(stream_indices@.take(i as int) =~= stream_indices@);
                JobType::StreamRemoval { stream_indices: copy, overwrite: *overwrite }
            },
            JobType::DependencyInstallation { tool, method } => JobType::DependencyInstallation {
                tool: tool.clone(),
                method: method.clone(),
            },
        }
    }
}

/// One unit of work owned by the queue.
#[derive(Debug)]
pub struct Job {
    /// Content-identity hash of the file.
    pub id: String,
    pub path: String,
    pub job_type: JobType,
    /// Set once by a cancel request; never cleared.
    pub cancelled: bool,
    pub queued_at: Instant,
    pub started_at: Option<Instant>,
    pub progress: JobProgress,
}

/// Mathematical value of a [`Job`]. Clock readings are reduced to whether
/// the job has started.
pub struct JobView {
    pub id: Seq<char>,
    pub path: Seq<char>,
    pub kind: JobTypeView,
    pub cancelled: bool,
    pub started: bool,
    pub progress: JobProgressView,
}

impl View for Job {
    type V = JobView;

    open spec fn view(&self) -> JobView {
        JobView {
            id: self.id@,
            path: self.path@,
            kind: self.job_type@,
            cancelled: self.cancelled,
            started: self.started_at is Some,
            progress: self.progress@,
        }
    }
}

/// The clock readings of a job: when it was queued, and when it was given
/// an execution slot, if it was.
pub struct JobClock {
    pub queued_at: Instant,
    pub started_at: Option<Instant>,
}

/// The clock readings of a job.
pub open spec fn clock_of(job: Job) -> JobClock {
    JobClock { queued_at: job.queued_at, started_at: job.started_at }
}

/// A job as it is at the moment it is created: waiting, not cancelled.
pub open spec fn fresh_job(path: Seq<char>, id: Seq<char>, kind: JobTypeView) -> JobView {
    JobView { id, path, kind, cancelled: false, started: false, progress: initial_progress() }
}

/// The same job once it holds an execution slot.
pub open spec fn started_job(job: JobView) -> JobView {
    JobView { started: true, ..job }
}

/// The same job with its cancel flag raised.
pub open spec fn cancelled_job(job: JobView) -> JobView {
    JobView { cancelled: true, ..job }
}

/// The same job with a new progress report.
pub open spec fn progressed_job(job: JobView, progress: JobProgressView) -> JobView {
    JobView { progress, ..job }
}

impl Job {
    /// Creates a waiting job for `path`, identified by `file_hash`.
    pub fn new(path: String, file_hash: String, job_type: JobType) -> (r: Self)
        ensures
            r@ == fresh_job(path@, file_hash@, job_type@),
    {
        Job {
            id: file_hash,
            path,
            job_type,
            cancelled: false,
            queued_at: Instant::now(),
            started_at: None,
            progress: JobProgress::default(),
        }
    }

    /// Whether a cancel request has reached this job.
    pub fn is_cancelled(&self) -> (r: bool)
        ensures
            r == self@.cancelled,
    {
        self.cancelled
    }

    /// Raises the cancel flag.
    pub fn cancel(&mut self)
        ensures
            final(self)@ == cancelled_job(old(self)@),
            clock_of(*final(self)) == clock_of(*old(self)),
    {
        self.cancelled = true;
    }

    /// Records that the job now holds an execution slot. The time at which
    /// it was queued stays.
    pub fn start(&mut self)
        ensures
            final(self)@ == started_job(old(self)@),
            final(self).queued_at == old(self).queued_at,
    {
        self.started_at = Some(Instant::now());
    }

    /// Replaces the progress report.
    pub fn update_progress(&mut self, progress: JobProgress)
        ensures
            final(self)@ == progressed_job(old(self)@, progress@),
            clock_of(*final(self)) == clock_of(*old(self)),
    {
        self.progress = progress;
    }

    /// The last progress report.
    pub fn get_progress(&self) -> (r: JobProgress)
        ensures
            r@ == self@.progress,
    {
        self.progress.clone()
    }

    /// The job with its cancel flag raised.
    pub fn into_cancelled(self) -> (r: Self)
        ensures
            r@ == cancelled_job(self@),
            clock_of(r) == clock_of(self),
    {
        let mut job = self;
        job.cancelled = true;
        job
    }

    /// The job with a new progress report.
    pub fn with_progress(self, progress: JobProgress) -> (r: Self)
        ensures
            r@ == progressed_job(self@, progress@),
            clock_of(r) == clock_of(self),
    {
        let mut job = self;
        job.progress = progress;
        job
    }
}

impl Clone for Job {
    fn clone(&self) -> (r: Self)
        ensures
            r@ == self@,
            r.queued_at == self.queued_at,
            r.started_at == self.started_at,
    {
        Job {
            id: self.id.clone(),
            path: self.path.clone(),
            job_type: self.job_type.clone(),
            cancelled: self.cancelled,
            queued_at: self.queued_at,
            started_at: self.started_at,
            progress: self.progress.clone(),
        }
    }
}

/// A bitrate analysis on its own: a job whose kind is fixed and that
/// reports no progress.
#[derive(Debug)]
pub struct BitrateJob {
    /// Content-identity hash of the file.
    pub id: String,
    pub path: String,
    /// Set once by a cancel request; never cleared.
    pub cancelled: bool,
    pub queued_at: Instant,
    pub started_at: Option<Instant>,
}

impl View for BitrateJob {
    type V = JobView;

    open spec fn view(&self) -> JobView {
        JobView {
            id: self.id@,
            path: self.path@,
            kind: JobTypeView::BitrateAnalysis,
            cancelled: self.cancelled,
            started: self.started_at is Some,
            progress: initial_progress(),
        }
    }
}

impl BitrateJob {
    /// Creates a waiting analysis of `path`, identified by `file_hash`.
    pub fn new(path: String, file_hash: String) -> (r: Self)
        ensures
            r@ == fresh_job(path@, file_hash@, JobTypeView::BitrateAnalysis),
    {
        BitrateJob { id: file_hash, path, cancelled: false, queued_at: Instant::now(), started_at: None }
    }

    /// Whether a cancel request has reached this job.
    pub fn is_cancelled(&self) -> (r: bool)
        ensures
            r == self@.cancelled,
    {
        self.cancelled
    }

    /// Raises the cancel flag.
    pub fn cancel(&mut self)
        ensures
            final(self)@ == cancelled_job(old(self)@),
    {
        self.cancelled = true;
    }

    /// Records that the job now holds an execution slot.
    pub fn start(&mut self)
        ensures
            final(self)@ == started_job(old(self)@),
    {
        self.started_at = Some(Instant::now());
    }

    /// The job as the queue holds it.
    pub fn into_job(self) -> (job: Job)
        ensures
            job@ == self@,
            job.queued_at == self.queued_at,
            job.started_at == self.started_at,
    {
        Job {
            id: self.id,
            path: self.path,
            job_type: JobType::BitrateAnalysis,
            cancelled: self.cancelled,
            queued_at: self.queued_at,
            started_at: self.started_at,
            progress: JobProgress::default(),
        }
    }
}

/// Result of trying to enqueue a new job. Each variant carries a job
/// identifier: that of the new job, or that of the job already there.
#[derive(Debug)]
pub enum JobStartResult {
    /// The job holds an execution slot.
    Started(String),
    /// The job waits for a slot.
    Queued(String),
    /// A job is already queued or running for this file.
    AlreadyExists(String),
}

impl View for JobStartResult {
    type V = StartOutcome;

    open spec fn view(&self) -> StartOutcome {
        match self {
            JobStartResult::Started(id) => StartOutcome::Started(id@),
            JobStartResult::Queued(id) => StartOutcome::Queued(id@),
            JobStartResult::AlreadyExists(id) => StartOutcome::AlreadyExists(id@),
        }
    }
}

/// The jobs that a running set holds, by path.
pub uninterp spec fn running_entries(map: DashMap<String, Job>) -> Map<Seq<char>, JobView>;

/// The clock readings of the jobs that a running set holds, by path.
pub uninterp spec fn running_clocks(map: DashMap<String, Job>) -> Map<Seq<char>, JobClock>;

/// `DashMap::new`: the new map holds nothing.
#[verifier::external_body]
fn running_new() -> (created: DashMap<String, Job>)
    ensures
        running_entries(created) =~= Map::empty(),
{
    DashMap::new()
}

/// `DashMap::contains_key`: whether the map holds an entry under `path`.
#[verifier::external_body]
fn running_contains(map: &DashMap<String, Job>, path: &str) -> (found: bool)
    ensures
        found == running_entries(*map).contains_key(path@),
{
    map.contains_key(path)
}

/// `DashMap::view`: a copy of the job filed under `path`, if there is one,
/// with its clock readings.
#[verifier::external_body]
fn running_lookup(map: &DashMap<String, Job>, path: &str) -> (found: Option<Job>)
    ensures
        found is Some == running_entries(*map).contains_key(path@),
        found is Some ==> found->0@ == running_entries(*map)[path@],
        found is Some ==> clock_of(found->0) == running_clocks(*map)[path@],
{
    map.view(path, |_, job| job.clone())
}

/// `DashMap::insert`: files `job` with its clock readings under `key`,
/// replacing what was there.
#[verifier::external_body]
fn running_insert(map: &mut DashMap<String, Job>, key: String, job: Job)
    ensures
        running_entries(*final(map)) == running_entries(*old(map)).insert(key@, job@),
        running_clocks(*final(map)) == running_clocks(*old(map)).insert(key@, clock_of(job)),
{
    map.insert(key, job);
}

/// `DashMap::remove`: takes out the entry under `path` with its clock
/// readings; says whether there was one.
#[verifier::external_body]
fn running_remove(map: &mut DashMap<String, Job>, path: &str) -> (found: bool)
    ensures
        found == running_entries(*old(map)).contains_key(path@),
        running_entries(*final(map)) == running_entries(*old(map)).remove(path@),
        running_clocks(*final(map)) == running_clocks(*old(map)).remove(path@),
{
    map.remove(path).is_some()
}

/// `DashMap::alter` with [`Job::into_cancelled`]: the job under `path`, if
/// there is one, has its cancel flag raised; nothing else changes, and no
/// clock reading does.
#[verifier::external_body]
fn running_cancel(map: &mut DashMap<String, Job>, path: &str)
    ensures
        running_entries(*old(map)).contains_key(path@) ==> running_entries(*final(map))
            == running_entries(*old(map)).insert(
            path@,
            cancelled_job(running_entries(*old(map))[path@]),
        ),
        !running_entries(*old(map)).contains_key(path@) ==> running_entries(*final(map))
            == running_entries(*old(map)),
        running_clocks(*final(map)) == running_clocks(*old(map)),
{
    map.alter(path, |_, job| job.into_cancelled());
}

/// `DashMap::alter_all` with [`Job::into_cancelled`]: every job has its
/// cancel flag raised; no clock reading changes.
#[verifier::external_body]
fn running_cancel_all(map: &mut DashMap<String, Job>)
    ensures
        running_entries(*final(map)) == running_entries(*old(map)).map_values(
            |job: JobView| cancelled_job(job),
        ),
        running_clocks(*final(map)) == running_clocks(*old(map)),
{
    map.alter_all(|_, job| job.into_cancelled());
}

/// `DashMap::alter` with [`Job::with_progress`]: the job under `path`, if
/// there is one, gets the new progress report; nothing else changes, and no
/// clock reading does.
#[verifier::external_body]
fn running_set_progress(map: &mut DashMap<String, Job>, path: &str, progress: JobProgress)
    ensures
        running_entries(*old(map)).contains_key(path@) ==> running_entries(*final(map))
            == running_entries(*old(map)).insert(
            path@,
            progressed_job(running_entries(*old(map))[path@], progress@),
        ),
        !running_entries(*old(map)).contains_key(path@) ==> running_entries(*final(map))
            == running_entries(*old(map)),
        running_clocks(*final(map)) == running_clocks(*old(map)),
{
    map.alter(path, |_, job| job.with_progress(progress));
}

/// `DashMap::iter`: copies of all entries with their clock readings, each
/// key once, in no particular order.
#[verifier::external_body]
fn running_snapshot(map: &DashMap<String, Job>) -> (entries: Vec<(String, Job)>)
    ensures
        forall|i: int|
            0 <= i < entries@.len() ==> running_entries(*map).contains_key(
                (#[trigger] entries@[i]).0@,
            ) && running_entries(*map)[entries@[i].0@] == entries@[i].1@,
        forall|i: int|
            0 <= i < entries@.len() ==> running_clocks(*map)[(#[trigger] entries@[i]).0@]
                == clock_of(entries@[i].1),
        forall|i: int, j: int|
            0 <= i < j < entries@.len() ==> (#[trigger] entries@[i]).0@ != (
            #[trigger] entries@[j]).0@,
        forall|key: Seq<char>| #[trigger]
            running_entries(*map).contains_key(key) ==> exists|i: int|
                0 <= i < entries@.len() && (#[trigger] entries@[i]).0@ == key,
{
    map.iter().map(|entry| (entry.key().clone(), entry.value().clone())).collect()
}

/// Views of a sequence of jobs, in order.
pub open spec fn job_views(jobs: Seq<Job>) -> Seq<JobView> {
    jobs.map_values(|job: Job| job@)
}

/// Number of uncancelled jobs among the first `n` snapshot entries.
pub open spec fn count_uncancelled(entries: Seq<(String, Job)>, n: int) -> nat
    decreases n,
{
    if n <= 0 {
        0
    } else {
        count_uncancelled(entries, n - 1) + if entries[n - 1].1.cancelled {
            0nat
        } else {
            1nat
        }
    }
}

/// The uncancelled jobs among the first `n` snapshot entries are as many as
/// the uncancelled jobs of a map that holds exactly those entries.
proof fn lemma_count_uncancelled(
    entries: Seq<(String, Job)>,
    n: int,
    running: Map<Seq<char>, JobView>,
)
    requires
        0 <= n <= entries.len(),
        forall|i: int|
            0 <= i < n ==> running.contains_key((#[trigger] entries[i]).0@) && running[entries[i].0@]
                == entries[i].1@,
        forall|i: int, j: int|
            0 <= i < j < n ==> (#[trigger] entries[i]).0@ != (#[trigger] entries[j]).0@,
        forall|key: Seq<char>| #[trigger]
            running.contains_key(key) ==> exists|i: int|
                0 <= i < n && (#[trigger] entries[i]).0@ == key,
    ensures
        running.dom().finite(),
        count_uncancelled(entries, n) == running.dom().filter(
            |p: Seq<char>| !running[p].cancelled,
        ).len(),
    decreases n,
{
    let active = running.dom().filter(|p: Seq<char>| !running[p].cancelled);
    if n == 0 {
        assert(running.dom() =~= Set::<Seq<char>>::empty());
        assert(active =~= Set::<Seq<char>>::empty());
    } else {
        let last = entries[n - 1];
        let rest = running.remove(last.0@);
        assert forall|key: Seq<char>| #[trigger] rest.contains_key(key) implies exists|i: int|
            0 <= i < n - 1 && (#[trigger] entries[i]).0@ == key by {
            assert(running.contains_key(key));
            let i = choose|i: int| 0 <= i < n && (#[trigger] entries[i]).0@ == key;
            assert(i != n - 1);
        }
        assert forall|i: int| 0 <= i < n - 1 implies rest.contains_key((#[trigger] entries[i]).0@)
            && rest[entries[i].0@] == entries[i].1@ by {
            assert(entries[i].0@ != entries[n - 1].0@);
        }
        lemma_count_uncancelled(entries, n - 1, rest);
        let rest_active = rest.dom().filter(|p: Seq<char>| !rest[p].cancelled);
        assert(running.dom() =~= rest.dom().insert(last.0@));
        if last.1.cancelled {
            assert(active =~= rest_active);
        } else {
            assert(active =~= rest_active.insert(last.0@));
            rest.dom().lemma_len_filter(|p: Seq<char>| !rest[p].cancelled);
        }
    }
}

/// A map that holds exactly the first `n` snapshot entries has `n` keys.
proof fn lemma_snapshot_length(
    entries: Seq<(String, Job)>,
    n: int,
    running: Map<Seq<char>, JobView>,
)
    requires
        0 <= n <= entries.len(),
        forall|i: int| 0 <= i < n ==> running.contains_key((#[trigger] entries[i]).0@),
        forall|i: int, j: int|
            0 <= i < j < n ==> (#[trigger] entries[i]).0@ != (#[trigger] entries[j]).0@,
        forall|key: Seq<char>| #[trigger]
            running.contains_key(key) ==> exists|i: int|
                0 <= i < n && (#[trigger] entries[i]).0@ == key,
    ensures
        running.dom().finite(),
        running.dom().len() == n,
    decreases n,
{
    if n == 0 {
        assert(running.dom() =~= Set::<Seq<char>>::empty());
    } else {
        let last = entries[n - 1].0@;
        let rest = running.remove(last);
        assert forall|key: Seq<char>| #[trigger] rest.contains_key(key) implies exists|i: int|
            0 <= i < n - 1 && (#[trigger] entries[i]).0@ == key by {
            let i = choose|i: int| 0 <= i < n && (#[trigger] entries[i]).0@ == key;
            assert(i != n - 1);
        }
        assert forall|i: int| 0 <= i < n - 1 implies rest.contains_key(
            (#[trigger] entries[i]).0@,
        ) by {
            assert(entries[i].0@ != entries[n - 1].0@);
        }
        lemma_snapshot_length(entries, n - 1, rest);
        assert(running.dom() =~= rest.dom().insert(last));
    }
}

/// Bounded-parallel scheduler keyed by file path.
pub struct JobQueue {
    /// Jobs that wait for an execution slot, oldest first.
    queued: VecDeque<Job>,
    /// Jobs that hold an execution slot, keyed by file path.
    running: DashMap<String, Job>,
    /// Limit on running jobs.
    max_parallel: usize,
}

impl View for JobQueue {
    type V = QueueState;

    closed spec fn view(&self) -> QueueState {
        QueueState {
            queued: job_views(self.queued@),
            running: running_entries(self.running),
            max_parallel: self.max_parallel as nat,
        }
    }
}

/// Whether the job for `path` is in `after` with the time at which it was
/// queued in `before`, and, if it ran in `before`, runs in `after` with the
/// time at which it was started.
pub open spec fn keeps_time(before: JobQueue, after: JobQueue, path: Seq<char>) -> bool {
    &&& after@.has_job(path)
    &&& after.clock(path).queued_at == before.clock(path).queued_at
    &&& before@.running.contains_key(path) ==> after@.running.contains_key(path) && after.clock(
        path,
    ) == before.clock(path)
}

/// The clock readings of a snapshot.
pub open spec fn info_clock(info: JobInfo) -> JobClock {
    JobClock { queued_at: info.queued_at, started_at: info.started_at }
}

impl JobQueue {
    /// The clock readings of the job for `path`, for a path that has a job.
    pub closed spec fn clock(&self, path: Seq<char>) -> JobClock {
        if running_entries(self.running).contains_key(path) {
            running_clocks(self.running)[path]
        } else {
            clock_of(self.queued@[first_queued(job_views(self.queued@), path)])
        }
    }

    /// Creates an empty queue. The limit is clamped to the accepted range.
    pub fn new(max_parallel: usize) -> (queue: Self)
        ensures
            queue@ == QueueState::empty(crate::queue_model::clamp_parallel(max_parallel as nat)),
            queue@.wf(),
            queue@.within_capacity(),
    {
        let limit = clamp_limit(max_parallel);
        let queue = JobQueue { queued: VecDeque::new(), running: running_new(), max_parallel: limit };
        proof {
            assert(job_views(queue.queued@) =~= Seq::<JobView>::empty());
            lemma_empty_wf(limit as nat);
        }
        queue
    }

    /// Number of running jobs, cancelled jobs that still hold their slot
    /// included.
    pub fn running_count(&self) -> (count: usize)
        ensures
            count == self@.running_count(),
            self@.running.dom().finite(),
    {
        let entries = running_snapshot(&self.running);
        proof {
            lemma_snapshot_length(entries@, entries@.len() as int, running_entries(self.running));
        }
        entries.len()
    }

    /// Number of running jobs that have not been cancelled.
    fn uncancelled_count(&self) -> (count: usize)
        ensures
            count == self@.active_count(),
    {
        let entries = running_snapshot(&self.running);
        let mut count: usize = 0;
        let mut i: usize = 0;
        while i < entries.len()
            invariant
                i <= entries.len(),
                count == count_uncancelled(entries@, i as int),
                count <= i,
            decreases entries.len() - i,
        {
            if !entries[i].1.cancelled {
                count += 1;
            }
            i += 1;
        }
        proof {
            lemma_count_uncancelled(entries@, entries@.len() as int, running_entries(self.running));
        }
        count
    }

    /// Position of the waiting job for `path`, or the number of waiting jobs
    /// if there is none.
    fn queued_position(&self, path: &String) -> (position: usize)
        ensures
            position == first_queued(self@.queued, path@),
            position <= self.queued@.len(),
    {
        let mut i: usize = 0;
        proof {
            lemma_first_queued(self@.queued, path@);
            assert(self@.queued.skip(0) =~= self@.queued);
        }
        while i < self.queued.len()
            invariant
                i <= self.queued@.len(),
                first_queued(self@.queued, path@) == i + first_queued(
                    self@.queued.skip(i as int),
                    path@,
                ),
            decreases self.queued@.len() - i,
        {
            let ghost rest = self@.queued.skip(i as int);
            assert(rest[0] == self.queued@[i as int]@);
            if self.queued[i].path == *path {
                return i;
            }
            assert(rest.drop_first() =~= self@.queued.skip(i + 1));
            i += 1;
        }
        assert(self@.queued.skip(i as int).len() == 0);
        i
    }

    /// Whether a job for `path` is waiting or running.
    pub fn is_queued_or_running(&self, path: &str) -> (found: bool)
        ensures
            found == self@.has_job(path@),
    {
        if running_contains(&self.running, path) {
            return true;
        }
        let owned = String::from_str(path);
        self.queued_position(&owned) < self.queued.len()
    }

    /// The current limit on running jobs.
    pub fn max_parallel(&self) -> (limit: usize)
        ensures
            limit == self@.max_parallel,
    {
        self.max_parallel
    }

    /// Number of waiting jobs.
    pub fn queued_count(&self) -> (count: usize)
        ensures
            count == self@.queued.len(),
    {
        self.queued.len()
    }
}

/// Checks a limit on parallel jobs that a user asks for: only limits within
/// the range are accepted.
pub fn check_parallel_limit(count: usize) -> (checked: Result<(), String>)
    ensures
        checked is Ok == (MIN_PARALLEL_JOBS <= count <= MAX_PARALLEL_JOBS),
        checked is Err ==> checked->Err_0@ == "Max parallel jobs must be between 1 and 8"@,
{
    if count < MIN_PARALLEL_JOBS || count > MAX_PARALLEL_JOBS {
        Err(String::from_str("Max parallel jobs must be between 1 and 8"))
    } else {
        Ok(())
    }
}

/// The limit that a request for `count` parallel jobs results in.
pub fn clamp_limit(count: usize) -> (limit: usize)
    ensures
        limit == crate::queue_model::clamp_parallel(count as nat),
        MIN_PARALLEL_JOBS <= limit <= MAX_PARALLEL_JOBS,
{
    if count < MIN_PARALLEL_JOBS {
        MIN_PARALLEL_JOBS
    } else if count > MAX_PARALLEL_JOBS {
        MAX_PARALLEL_JOBS
    } else {
        count
    }
}

/// Enqueues a job for `path`, identified by the file's content hash.
///
/// A path that already has a job is rejected with the identifier of that job
/// and the queue is left as it was. Otherwise the job starts at once if fewer
/// jobs run than the limit allows, and waits at the back of the queue if
/// not. A cancelled job that has not been completed yet holds its slot.
pub fn enqueue_job(queue: &mut JobQueue, path: &str, file_hash: &str, job_type: JobType) -> (result:
    JobStartResult)
    requires
        old(queue)@.wf(),
    ensures
        final(queue)@ == old(queue)@.enqueue(path@, file_hash@, job_type@),
        result@ == old(queue)@.enqueue_outcome(path@, file_hash@),
        final(queue)@.wf(),
        old(queue)@.within_capacity() ==> final(queue)@.within_capacity(),
        forall|p: Seq<char>|
            old(queue)@.has_job(p) ==> #[trigger] final(queue).clock(p) == old(queue).clock(p),
{
    proof {
        lemma_enqueue_wf(queue@, path@, file_hash@, job_type@);
        lemma_first_queued(queue@.queued, path@);
    }
    let owned_path = String::from_str(path);
    match running_lookup(&queue.running, path) {
        Some(existing) => {
            return JobStartResult::AlreadyExists(existing.id);
        },
        None => {},
    }
    let position = queue.queued_position(&owned_path);
    if position < queue.queued.len() {
        return JobStartResult::AlreadyExists(queue.queued[position].id.clone());
    }
    let mut job = Job::new(owned_path, String::from_str(file_hash), job_type);
    let job_id = job.id.clone();
    let running = queue.running_count();
    if running < queue.max_parallel {
        job.start();
        running_insert(&mut queue.running, String::from_str(path), job);
        JobStartResult::Started(job_id)
    } else {
        queue.queued.push_back(job);
        assert(queue@.queued =~= old(queue)@.queued.push(fresh_job(path@, file_hash@, job_type@)));
        assert forall|p: Seq<char>| old(queue)@.has_job(p) implies #[trigger] queue.clock(p) == old(
            queue,
        ).clock(p) by {
            if !old(queue)@.running.contains_key(p) {
                crate::queue_model::lemma_first_queued_push(
                    old(queue)@.queued,
                    fresh_job(path@, file_hash@, job_type@),
                    p,
                );
                let k = first_queued(old(queue)@.queued, p);
                lemma_first_queued(old(queue)@.queued, p);
                assert(first_queued(queue@.queued, p) == k);
                assert(queue.queued@[k] == old(queue).queued@[k]);
            }
        }
        JobStartResult::Queued(job_id)
    }
}

/// Promotes waiting jobs, oldest first, for as long as a slot is free and a
/// job waits.
pub fn try_start_next_job(queue: &mut JobQueue)
    requires
        old(queue)@.wf(),
    ensures
        final(queue)@ == old(queue)@.promote(),
        final(queue)@.wf(),
        old(queue)@.within_capacity() ==> final(queue)@.within_capacity(),
        final(queue)@.queued == old(queue)@.queued.skip(old(queue)@.promoted_count() as int),
        final(queue)@.running_count() == old(queue)@.running_count() + old(queue)@.promoted_count(),
        final(queue)@.queued.len() == 0 || final(queue)@.running_count()
            >= final(queue)@.max_parallel,
        forall|p: Seq<char>|
            old(queue)@.has_job(p) ==> #[trigger] keeps_time(*old(queue), *final(queue), p),
        forall|p: Seq<char>| #[trigger] final(queue)@.has_job(p) ==> old(queue)@.has_job(p),
{
    proof {
        crate::queue_model::lemma_promote(queue@);
        crate::queue_model::lemma_promote_moves(queue@);
    }
    loop
        invariant_except_break
            queue@.promote() == old(queue)@.promote(),
        invariant
            queue@.wf(),
            forall|p: Seq<char>|
                old(queue)@.has_job(p) ==> #[trigger] keeps_time(*old(queue), *queue, p),
            forall|p: Seq<char>| #[trigger] queue@.has_job(p) ==> old(queue)@.has_job(p),
        ensures
            queue@ == old(queue)@.promote(),
        decreases queue@.queued.len(),
    {
        let running = queue.running_count();
        if running >= queue.max_parallel {
            assert(queue@.promote() == queue@);
            break ;
        }
        let ghost before = queue@;
        let ghost earlier = *queue;
        match queue.queued.pop_front() {
            Some(mut job) => {
                let ghost head = job;
                job.start();
                let key = job.path.clone();
                let ghost started = job;
                running_insert(&mut queue.running, key, job);
                proof {
                    lemma_promote_one(before);
                    assert(queue@.queued =~= before.queued.drop_first());
                    assert(queue@ == before.promote_one());
                    assert(queue.queued@ =~= earlier.queued@.drop_first());
                    assert(head == earlier.queued@[0]);
                    assert forall|p: Seq<char>| earlier@.has_job(p) implies #[trigger] keeps_time(
                        earlier,
                        *queue,
                        p,
                    ) by {
                        crate::queue_model::lemma_promote_one_jobs(before, p);
                        lemma_first_queued(before.queued, p);
                        if !before.running.contains_key(p) {
                            let k = first_queued(before.queued, p);
                            if k > 0 {
                                assert(queue.queued@[k - 1] == earlier.queued@[k]);
                            } else {
                                assert(started.queued_at == head.queued_at);
                            }
                        }
                    }
                    assert forall|p: Seq<char>| #[trigger] queue@.has_job(p) implies old(
                        queue,
                    )@.has_job(p) by {
                        crate::queue_model::lemma_promote_one_jobs(before, p);
                        assert(earlier@.has_job(p));
                    }
                    assert forall|p: Seq<char>| old(queue)@.has_job(p) implies #[trigger] keeps_time(
                        *old(queue),
                        *queue,
                        p,
                    ) by {
                        assert(keeps_time(*old(queue), earlier, p));
                        assert(keeps_time(earlier, *queue, p));
                    }
                }
            },
            None => {
                assert(queue@ == before);
                assert(queue@.promote() == queue@);
                assert(queue.queued@ =~= earlier.queued@);
                assert forall|p: Seq<char>| old(queue)@.has_job(p) implies #[trigger] keeps_time(
                    *old(queue),
                    *queue,
                    p,
                ) by {
                    assert(keeps_time(*old(queue), earlier, p));
                    assert(queue.clock(p) == earlier.clock(p));
                }
                break ;
            },
        }
    }
}

/// Removes the running job for `path`, if there is one, and promotes waiting
/// jobs into the free slots.
pub fn complete_job(queue: &mut JobQueue, path: &str)
    requires
        old(queue)@.wf(),
    ensures
        final(queue)@ == old(queue)@.complete(path@),
        final(queue)@.wf(),
        old(queue)@.within_capacity() ==> final(queue)@.within_capacity(),
        forall|p: Seq<char>|
            old(queue)@.has_job(p) && !(p == path@ && old(queue)@.running.contains_key(p))
                ==> #[trigger] keeps_time(*old(queue), *final(queue), p),
        old(queue)@.running.contains_key(path@) ==> !final(queue)@.has_job(path@),
{
    proof {
        lemma_complete_wf(queue@, path@);
        crate::queue_model::lemma_active_remove(queue@, path@);
    }
    running_remove(&mut queue.running, path);
    assert(queue@ == old(queue)@.with_running(old(queue)@.running.remove(path@)));
    let ghost removed = *queue;
    proof {
        assert(removed@.wf());
        assert forall|p: Seq<char>|
            old(queue)@.has_job(p) && !(p == path@ && old(queue)@.running.contains_key(
                p,
            )) implies #[trigger] keeps_time(*old(queue), removed, p) by {
            assert(removed.queued@ == old(queue).queued@);
        }
        if old(queue)@.running.contains_key(path@) {
            crate::queue_model::lemma_unique_paths(old(queue)@, path@);
            assert(!removed@.has_job(path@));
        }
    }
    try_start_next_job(queue);
    proof {
        assert forall|p: Seq<char>|
            old(queue)@.has_job(p) && !(p == path@ && old(queue)@.running.contains_key(
                p,
            )) implies #[trigger] keeps_time(*old(queue), *queue, p) by {
            assert(keeps_time(*old(queue), removed, p));
            assert(keeps_time(removed, *queue, p));
        }
    }
}

/// Cancels the job for `path`. A running job has its cancel flag raised and
/// stays in the running set until it is completed; a waiting job is removed.
/// Returns whether there was a job for `path`.
pub fn cancel_job(queue: &mut JobQueue, path: &str) -> (found: bool)
    requires
        old(queue)@.wf(),
    ensures
        final(queue)@ == old(queue)@.cancel(path@),
        found == old(queue)@.has_job(path@),
        final(queue)@.wf(),
        old(queue)@.within_capacity() ==> final(queue)@.within_capacity(),
        forall|p: Seq<char>|
            final(queue)@.has_job(p) ==> #[trigger] final(queue).clock(p) == old(queue).clock(p),
{
    proof {
        lemma_cancel_wf(queue@, path@);
    }
    if running_contains(&queue.running, path) {
        running_cancel(&mut queue.running, path);
        return true;
    }
    let owned = String::from_str(path);
    let position = queue.queued_position(&owned);
    if position < queue.queued.len() {
        queue.queued.remove(position);
        assert(queue@.queued =~= old(queue)@.queued.remove(position as int));
        assert forall|p: Seq<char>| queue@.has_job(p) implies #[trigger] queue.clock(p) == old(
            queue,
        ).clock(p) by {
            if !queue@.running.contains_key(p) {
                lemma_first_queued(queue@.queued, p);
                let now = first_queued(queue@.queued, p);
                let then = if now < position { now } else { now + 1 };
                assert(queue@.queued[now] == old(queue)@.queued[then]);
                assert(queue.queued@[now] == old(queue).queued@[then]);
                crate::queue_model::lemma_position_of(old(queue)@, then);
            }
        }
        return true;
    }
    false
}

/// Raises the cancel flag of every running job and removes every waiting job.
pub fn cancel_all_jobs(queue: &mut JobQueue)
    requires
        old(queue)@.wf(),
    ensures
        final(queue)@ == old(queue)@.cancel_all(),
        final(queue)@.wf(),
        old(queue)@.within_capacity() ==> final(queue)@.within_capacity(),
        forall|p: Seq<char>|
            final(queue)@.has_job(p) ==> #[trigger] final(queue).clock(p) == old(queue).clock(p),
{
    proof {
        lemma_cancel_all_wf(queue@);
    }
    running_cancel_all(&mut queue.running);
    queue.queued.clear();
    assert(queue@.queued =~= Seq::<JobView>::empty());
    assert forall|p: Seq<char>| queue@.has_job(p) implies #[trigger] queue.clock(p) == old(
        queue,
    ).clock(p) by {
        assert(queue@.running.dom() =~= old(queue)@.running.dom());
    }
}

/// Sets the limit on running jobs, clamped to the accepted range. Waiting
/// jobs are promoted only if the limit grew.
pub fn set_max_parallel_jobs(queue: &mut JobQueue, count: usize)
    requires
        old(queue)@.wf(),
    ensures
        final(queue)@ == old(queue)@.set_max_parallel(count as nat),
        final(queue)@.wf(),
        forall|p: Seq<char>|
            old(queue)@.has_job(p) ==> #[trigger] keeps_time(*old(queue), *final(queue), p),
{
    proof {
        lemma_set_max_parallel_wf(queue@, count as nat);
    }
    let previous = queue.max_parallel;
    let clamped = clamp_limit(count);
    queue.max_parallel = clamped;
    let ghost resized = *queue;
    proof {
        assert forall|p: Seq<char>| old(queue)@.has_job(p) implies #[trigger] keeps_time(
            *old(queue),
            resized,
            p,
        ) by {
            assert(resized.queued@ == old(queue).queued@);
        }
    }
    if clamped > previous {
        try_start_next_job(queue);
        proof {
            assert forall|p: Seq<char>| old(queue)@.has_job(p) implies #[trigger] keeps_time(
                *old(queue),
                *queue,
                p,
            ) by {
                assert(keeps_time(*old(queue), resized, p));
                assert(keeps_time(resized, *queue, p));
            }
        }
    }
}

/// The cancel flag of the job for `path`, running or waiting; `None` if the
/// path has no job.
pub fn get_job_cancel_flag(queue: &JobQueue, path: &str) -> (flag: Option<bool>)
    requires
        queue@.wf(),
    ensures
        flag is Some == queue@.has_job(path@),
        queue@.running.contains_key(path@) ==> flag == Some(queue@.running[path@].cancelled),
        !queue@.running.contains_key(path@) && queue@.has_queued(path@) ==> flag == Some(false),
{
    match running_lookup(&queue.running, path) {
        Some(job) => {
            return Some(job.cancelled);
        },
        None => {},
    }
    let owned = String::from_str(path);
    let position = queue.queued_position(&owned);
    proof {
        lemma_first_queued(queue@.queued, path@);
    }
    if position < queue.queued.len() {
        Some(queue.queued[position].cancelled)
    } else {
        None
    }
}

/// Whether the work on `path` has to stop: its job has been cancelled, or
/// the path has no job any more, as after the cancellation of a job that
/// waited.
pub fn is_job_cancelled(queue: &JobQueue, path: &str) -> (stop: bool)
    requires
        queue@.wf(),
    ensures
        stop == (!queue@.has_job(path@) || (queue@.running.contains_key(path@)
            && queue@.running[path@].cancelled)),
{
    match get_job_cancel_flag(queue, path) {
        Some(cancelled) => cancelled,
        None => true,
    }
}

/// Stores a progress report with the running job for `path`. A path without
/// a running job is left alone.
pub fn update_job_progress(queue: &mut JobQueue, path: &str, progress: JobProgress)
    requires
        old(queue)@.wf(),
    ensures
        final(queue)@ == old(queue)@.update_progress(path@, progress@),
        final(queue)@.wf(),
        final(queue)@.active_count() == old(queue)@.active_count(),
        final(queue)@.running_count() == old(queue)@.running_count(),
        forall|p: Seq<char>|
            final(queue)@.has_job(p) ==> #[trigger] final(queue).clock(p) == old(queue).clock(p),
{
    proof {
        lemma_update_progress_wf(queue@, path@, progress@);
    }
    running_set_progress(&mut queue.running, path, progress);
    assert(queue@.running.dom() =~= old(queue)@.running.dom());
}

/// The kind of the running job for `path`; `None` if no job runs for it.
pub fn get_job_details(queue: &JobQueue, path: &str) -> (kind: Option<JobType>)
    ensures
        kind is Some == queue@.running.contains_key(path@),
        kind is Some ==> kind->0@ == queue@.running[path@].kind,
{
    match running_lookup(&queue.running, path) {
        Some(job) => Some(job.job_type),
        None => None,
    }
}

/// Whether an uncancelled job runs for `path`.
pub fn is_job_running(queue: &JobQueue, path: &str) -> (running: bool)
    ensures
        running == queue@.active().contains(path@),
{
    match running_lookup(&queue.running, path) {
        Some(job) => !job.cancelled,
        None => false,
    }
}

/// Number of running jobs that have not been cancelled.
pub fn active_job_count(queue: &JobQueue) -> (count: usize)
    ensures
        count == queue@.active_count(),
{
    queue.uncancelled_count()
}

/// Snapshot of one job.
#[derive(Debug)]
pub struct JobInfo {
    /// Always zero; jobs are identified by path.
    pub job_id: u64,
    pub path: String,
    /// `queued:` or `running:` followed by the wire name of the job type.
    pub state: String,
    pub queued_at: Instant,
    pub started_at: Option<Instant>,
    pub progress_current: Option<usize>,
    pub progress_total: Option<usize>,
    pub progress_percentage: Option<u64>,
    pub progress_stage: Option<String>,
}

/// Mathematical value of a [`JobInfo`].
pub struct JobInfoView {
    pub job_id: nat,
    pub path: Seq<char>,
    pub state: Seq<char>,
    pub started: bool,
    pub progress: Option<JobProgressView>,
}

impl View for JobInfo {
    type V = JobInfoView;

    open spec fn view(&self) -> JobInfoView {
        JobInfoView {
            job_id: self.job_id as nat,
            path: self.path@,
            state: self.state@,
            started: self.started_at is Some,
            progress: match (
                self.progress_current,
                self.progress_total,
                self.progress_percentage,
                self.progress_stage,
            ) {
                (Some(current), Some(total), Some(percentage), Some(stage)) => Some(
                    JobProgressView {
                        current: current as nat,
                        total: total as nat,
                        percentage: percentage as nat,
                        stage: stage@,
                    },
                ),
                _ => None,
            },
        }
    }
}

/// Snapshot of a running job for callers that only track running jobs.
#[derive(Debug)]
pub struct JobStatus {
    /// Always zero; jobs are identified by path.
    pub job_id: u64,
    pub path: String,
    pub started_at: Option<Instant>,
}

/// Snapshot of a queue.
#[derive(Debug)]
pub struct QueueStatus {
    /// The waiting jobs, oldest first.
    pub queued: Vec<JobInfo>,
    /// The running jobs that have not been cancelled, in no particular order.
    pub running: Vec<JobInfo>,
    pub max_parallel: usize,
}

/// The snapshot of `job`, which is in the collection named `collection`.
pub open spec fn job_info_of(job: JobView, collection: Seq<char>) -> JobInfoView {
    JobInfoView {
        job_id: 0,
        path: job.path,
        state: collection + seq![':'] + job_type_name(job.kind),
        started: job.started,
        progress: Some(job.progress),
    }
}

/// Views of a sequence of snapshots, in order.
pub open spec fn info_views(infos: Seq<JobInfo>) -> Seq<JobInfoView> {
    infos.map_values(|info: JobInfo| info@)
}

/// Whether `infos` lists exactly the uncancelled running jobs of `state`,
/// each once.
pub open spec fn lists_active_jobs(infos: Seq<JobInfoView>, state: QueueState) -> bool {
    &&& infos.len() == state.active_count()
    &&& forall|i: int|
        0 <= i < infos.len() ==> state.active().contains((#[trigger] infos[i]).path) && infos[i]
            == job_info_of(state.running[infos[i].path], "running"@)
    &&& forall|i: int, j: int|
        0 <= i < j < infos.len() ==> (#[trigger] infos[i]).path != (#[trigger] infos[j]).path
}

/// The snapshot of `job`.
fn snapshot_job(job: &Job, collection: &str) -> (info: JobInfo)
    ensures
        info@ == job_info_of(job@, collection@),
        info.queued_at == job.queued_at,
        info.started_at == job.started_at,
{
    let mut state = String::from_str(collection);
    state.push(':');
    state.append(job.job_type.name());
    assert(state@ =~= collection@ + seq![':'] + job_type_name(job@.kind));
    JobInfo {
        job_id: 0,
        path: job.path.clone(),
        state,
        queued_at: job.queued_at,
        started_at: job.started_at,
        progress_current: Some(job.progress.current),
        progress_total: Some(job.progress.total),
        progress_percentage: Some(job.progress.percentage),
        progress_stage: Some(job.progress.stage.clone()),
    }
}

/// Takes a snapshot of the queue: the waiting jobs in order, the running
/// jobs that have not been cancelled, and the limit.
pub fn get_queue_status(queue: &JobQueue) -> (status: QueueStatus)
    requires
        queue@.wf(),
    ensures
        status.max_parallel == queue@.max_parallel,
        info_views(status.queued@) == queue@.queued.map_values(
            |job: JobView| job_info_of(job, "queued"@),
        ),
        lists_active_jobs(info_views(status.running@), queue@),
        queue@.within_capacity() ==> status.running@.len() <= status.max_parallel,
        forall|k: int|
            0 <= k < status.queued@.len() ==> info_clock(#[trigger] status.queued@[k])
                == queue.clock(status.queued@[k].path@),
        forall|k: int|
            0 <= k < status.running@.len() ==> info_clock(#[trigger] status.running@[k])
                == queue.clock(status.running@[k].path@),
{
    let mut queued: Vec<JobInfo> = Vec::new();
    let mut i: usize = 0;
    while i < queue.queued.len()
        invariant
            i <= queue.queued@.len(),
            queued@.len() == i,
            forall|k: int|
                0 <= k < i ==> (#[trigger] queued@[k])@ == job_info_of(
                    queue.queued@[k]@,
                    "queued"@,
                ),
            forall|k: int|
                0 <= k < i ==> info_clock(#[trigger] queued@[k]) == clock_of(queue.queued@[k]),
        decreases queue.queued@.len() - i,
    {
        queued.push(snapshot_job(&queue.queued[i], "queued"));
        i += 1;
    }
    assert forall|k: int| 0 <= k < queued@.len() implies info_clock(#[trigger] queued@[k])
        == queue.clock(queued@[k].path@) by {
        crate::queue_model::lemma_position_of(queue@, k);
        assert(queued@[k]@.path == queue@.queued[k].path);
    }
    assert(info_views(queued@) =~= queue@.queued.map_values(
        |job: JobView| job_info_of(job, "queued"@),
    ));
    let entries = running_snapshot(&queue.running);
    let ghost running_map = running_entries(queue.running);
    let mut running: Vec<JobInfo> = Vec::new();
    let ghost mut origin: Seq<int> = Seq::empty();
    let mut k: usize = 0;
    while k < entries.len()
        invariant
            k <= entries.len(),
            queue@.wf(),
            running_map == running_entries(queue.running),
            running_map == queue@.running,
            forall|e: int|
                0 <= e < entries@.len() ==> running_map.contains_key((#[trigger] entries@[e]).0@)
                    && running_map[entries@[e].0@] == entries@[e].1@,
            forall|a: int, b: int|
                0 <= a < b < entries@.len() ==> (#[trigger] entries@[a]).0@ != (
                #[trigger] entries@[b]).0@,
            forall|e: int|
                0 <= e < entries@.len() ==> running_clocks(queue.running)[(
                #[trigger] entries@[e]).0@] == clock_of(entries@[e].1),
            running@.len() == count_uncancelled(entries@, k as int),
            origin.len() == running@.len(),
            forall|r: int|
                0 <= r < running@.len() ==> 0 <= (#[trigger] origin[r]) < k
                    && !entries@[origin[r]].1.cancelled && running@[r]@.path
                    == entries@[origin[r]].0@ && running@[r]@ == job_info_of(
                    entries@[origin[r]].1@,
                    "running"@,
                ) && info_clock(running@[r]) == clock_of(entries@[origin[r]].1),
            forall|a: int, b: int| 0 <= a < b < origin.len() ==> origin[a] < origin[b],
        decreases entries.len() - k,
    {
        let job = &entries[k].1;
        assert(running_map.contains_key(entries@[k as int].0@));
        assert(job@.path == entries@[k as int].0@);
        if !job.cancelled {
            running.push(snapshot_job(job, "running"));
            proof {
                origin = origin.push(k as int);
            }
        }
        k += 1;
    }
    proof {
        lemma_count_uncancelled(entries@, entries@.len() as int, running_map);
        crate::queue_model::lemma_active_within_running(queue@);
        let infos = info_views(running@);
        assert forall|r: int| 0 <= r < infos.len() implies queue@.active().contains(
            (#[trigger] infos[r]).path,
        ) && infos[r] == job_info_of(queue@.running[infos[r].path], "running"@) by {
            let e = origin[r];
            assert(running_map.contains_key(entries@[e].0@));
        }
        assert forall|a: int, b: int| 0 <= a < b < infos.len() implies (#[trigger] infos[a]).path
            != (#[trigger] infos[b]).path by {
            assert(origin[a] < origin[b]);
            assert(entries@[origin[a]].0@ != entries@[origin[b]].0@);
        }
        assert forall|r: int| 0 <= r < running@.len() implies info_clock(#[trigger] running@[r])
            == queue.clock(running@[r].path@) by {
            let e = origin[r];
            assert(running_map.contains_key(entries@[e].0@));
            assert(running@[r]@.path == entries@[e].0@);
        }
    }
    QueueStatus { queued, running, max_parallel: queue.max_parallel }
}

/// Lists the running jobs that have not been cancelled, in no particular
/// order.
pub fn get_active_jobs(queue: &JobQueue) -> (jobs: Vec<JobStatus>)
    requires
        queue@.wf(),
    ensures
        jobs@.len() == queue@.active_count(),
        forall|i: int|
            0 <= i < jobs@.len() ==> queue@.active().contains((#[trigger] jobs@[i]).path@)
                && jobs@[i].job_id == 0 && (jobs@[i].started_at is Some)
                == queue@.running[jobs@[i].path@].started && jobs@[i].started_at == queue.clock(
                jobs@[i].path@,
            ).started_at,
        forall|i: int, j: int|
            0 <= i < j < jobs@.len() ==> (#[trigger] jobs@[i]).path@ != (#[trigger] jobs@[j]).path@,
{
    let status = get_queue_status(queue);
    let infos = status.running;
    let mut jobs: Vec<JobStatus> = Vec::new();
    let mut i: usize = 0;
    while i < infos.len()
        invariant
            i <= infos.len(),
            jobs@.len() == i,
            forall|k: int|
                0 <= k < i ==> (#[trigger] jobs@[k]).path@ == infos@[k]@.path && jobs@[k].job_id
                    == 0 && (jobs@[k].started_at is Some) == infos@[k]@.started
                    && jobs@[k].started_at == infos@[k].started_at,
        decreases infos.len() - i,
    {
        jobs.push(
            JobStatus { job_id: 0, path: infos[i].path.clone(), started_at: infos[i].started_at },
        );
        i += 1;
    }
    proof {
        assert forall|k: int| 0 <= k < jobs@.len() implies queue@.active().contains(
            (#[trigger] jobs@[k]).path@,
        ) && (jobs@[k].started_at is Some) == queue@.running[jobs@[k].path@].started
            && jobs@[k].started_at == queue.clock(jobs@[k].path@).started_at by {
            assert(info_views(infos@)[k].path == jobs@[k].path@);
            assert(info_clock(infos@[k]) == queue.clock(infos@[k].path@));
        }
        assert forall|a: int, b: int| 0 <= a < b < jobs@.len() implies (#[trigger] jobs@[a]).path@
            != (#[trigger] jobs@[b]).path@ by {
            assert(info_views(infos@)[a].path == jobs@[a].path@);
            assert(info_views(infos@)[b].path == jobs@[b].path@);
        }
    }
    jobs
}

} // verus!
