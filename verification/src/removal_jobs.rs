//! Removal of streams as jobs of the queue: which requests of a batch are
//! admitted, and what a worker does while its job waits.
use crate::grouping::path_texts;
use crate::jobs::{enqueue_job, JobQueue, JobStartResult, JobType, JobTypeView};
use crate::queue_model::{QueueState, StartOutcome};
use vstd::prelude::*;

verus! {

/// Milliseconds that a worker sleeps before it looks at its job again.
pub const REMOVAL_POLL_MS: u64 = 100;

/// A request to remove streams from one file.
#[derive(Debug)]
pub struct StreamRemovalOp {
    pub path: String,
    pub stream_indices: Vec<i32>,
    /// The content hash of the file, or why it could not be computed.
    pub file_hash: Result<String, String>,
}

/// Mathematical value of a [`StreamRemovalOp`].
pub struct RemovalOpView {
    pub path: Seq<char>,
    pub stream_indices: Seq<i32>,
    pub file_hash: Result<Seq<char>, Seq<char>>,
}

impl View for StreamRemovalOp {
    type V = RemovalOpView;

    open spec fn view(&self) -> RemovalOpView {
        RemovalOpView {
            path: self.path@,
            stream_indices: self.stream_indices@,
            file_hash: match self.file_hash {
                Ok(hash) => Ok(hash@),
                Err(reason) => Err(reason@),
            },
        }
    }
}

/// Views of a sequence of requests, in order.
pub open spec fn op_views(operations: Seq<StreamRemovalOp>) -> Seq<RemovalOpView> {
    operations.map_values(|op: StreamRemovalOp| op@)
}

/// Answer to a batch of requests.
#[derive(Debug)]
pub struct BulkStreamRemovalResult {
    /// Number of jobs that the batch added to the queue.
    pub jobs_queued: usize,
    /// Identifiers of those jobs, in the order of their requests.
    pub job_ids: Vec<String>,
    /// One message for each request that added no job, in order.
    pub errors: Vec<String>,
}

/// The job that removes streams.
pub open spec fn removal_job(stream_indices: Seq<i32>, overwrite: bool) -> JobTypeView {
    JobTypeView::StreamRemoval { stream_indices, overwrite }
}

/// The queue after one request: a request with a content hash is an
/// enqueue request; one without changes nothing.
pub open spec fn state_after(state: QueueState, op: RemovalOpView, overwrite: bool) -> QueueState {
    match op.file_hash {
        Ok(hash) => state.enqueue(op.path, hash, removal_job(op.stream_indices, overwrite)),
        Err(_) => state,
    }
}

/// The answer to one request: the identifier of the new job, or the
/// message for a file without a content hash or with a job already.
pub open spec fn answer_to(state: QueueState, op: RemovalOpView) -> Result<Seq<char>, Seq<char>> {
    match op.file_hash {
        Ok(hash) => match state.enqueue_outcome(op.path, hash) {
            StartOutcome::Started(id) => Ok(id),
            StartOutcome::Queued(id) => Ok(id),
            StartOutcome::AlreadyExists(id) => Err(
                op.path + ": Stream removal already queued or in progress (job "@ + id + ")"@,
            ),
        },
        Err(reason) => Err(op.path + ": "@ + reason),
    }
}

/// The queue after the first `n` requests of a batch.
pub open spec fn state_after_batch(
    state: QueueState,
    operations: Seq<RemovalOpView>,
    overwrite: bool,
    n: int,
) -> QueueState
    decreases n,
{
    if n <= 0 {
        state
    } else {
        state_after(state_after_batch(state, operations, overwrite, n - 1), operations[n - 1], overwrite)
    }
}

/// The identifiers of the jobs that the first `n` requests of a batch add,
/// in order.
pub open spec fn admitted_ids(
    state: QueueState,
    operations: Seq<RemovalOpView>,
    overwrite: bool,
    n: int,
) -> Seq<Seq<char>>
    decreases n,
{
    if n <= 0 {
        Seq::empty()
    } else {
        let before = admitted_ids(state, operations, overwrite, n - 1);
        match answer_to(state_after_batch(state, operations, overwrite, n - 1), operations[n - 1]) {
            Ok(id) => before.push(id),
            Err(_) => before,
        }
    }
}

/// The messages for those of the first `n` requests of a batch that add no
/// job, in order.
pub open spec fn refusals(
    state: QueueState,
    operations: Seq<RemovalOpView>,
    overwrite: bool,
    n: int,
) -> Seq<Seq<char>>
    decreases n,
{
    if n <= 0 {
        Seq::empty()
    } else {
        let before = refusals(state, operations, overwrite, n - 1);
        match answer_to(state_after_batch(state, operations, overwrite, n - 1), operations[n - 1]) {
            Ok(_) => before,
            Err(message) => before.push(message),
        }
    }
}

/// Texts of an answer.
pub open spec fn answer_text(answer: Result<String, String>) -> Result<Seq<char>, Seq<char>> {
    match answer {
        Ok(id) => Ok(id@),
        Err(message) => Err(message@),
    }
}

/// A copy of stream indices.
fn copy_indices(indices: &Vec<i32>) -> (copy: Vec<i32>)
    ensures
        copy@ == indices@,
{
    let mut copy: Vec<i32> = Vec::new();
    let mut i: usize = 0;
    while i < indices.len()
        invariant
            i <= indices.len(),
            copy@ == indices@.take(i as int),
        decreases indices.len() - i,
    {
        copy.push(indices[i]);
        i += 1;
        assert(copy@ =~= indices@.take(i as int));
    }
    assert(indices@.take(i as int) =~= indices@);
    copy
}

/// Asks the queue for a job that removes streams from one file.
pub fn admit_stream_removal(queue: &mut JobQueue, op: &StreamRemovalOp, overwrite: bool) -> (answer:
    Result<String, String>)
    requires
        old(queue)@.wf(),
    ensures
        final(queue)@ == state_after(old(queue)@, op@, overwrite),
        answer_text(answer) == answer_to(old(queue)@, op@),
        final(queue)@.wf(),
        old(queue)@.within_capacity() ==> final(queue)@.within_capacity(),
{
    let hash = match &op.file_hash {
        Ok(hash) => hash,
        Err(reason) => {
            let mut message = op.path.clone();
            message.append(": ");
            message.append(reason.as_str());
            return Err(message);
        },
    };
    let kind = JobType::StreamRemoval { stream_indices: copy_indices(&op.stream_indices), overwrite };
    match enqueue_job(queue, op.path.as_str(), hash.as_str(), kind) {
        JobStartResult::Started(id) => Ok(id),
        JobStartResult::Queued(id) => Ok(id),
        JobStartResult::AlreadyExists(id) => {
            let mut message = op.path.clone();
            message.append(": Stream removal already queued or in progress (job ");
            message.append(id.as_str());
            message.append(")");
            Err(message)
        },
    }
}

/// Whether request `k` of a batch adds a job.
pub open spec fn is_admitted(
    state: QueueState,
    operations: Seq<RemovalOpView>,
    overwrite: bool,
    k: int,
) -> bool {
    answer_to(state_after_batch(state, operations, overwrite, k), operations[k]) is Ok
}

/// Asks the queue for one job per request of a batch, in order. A request
/// that is refused leaves a message and does not stop the batch. Beside the
/// answer to the batch, the result says of each request whether it added a
/// job.
pub fn bulk_remove_streams(queue: &mut JobQueue, operations: &Vec<StreamRemovalOp>, overwrite: bool) -> (
    outcome: (BulkStreamRemovalResult, Vec<bool>))
    requires
        old(queue)@.wf(),
    ensures
        outcome.1@.len() == operations@.len(),
        forall|k: int|
            0 <= k < operations@.len() ==> (#[trigger] outcome.1@[k]) == is_admitted(
                old(queue)@,
                op_views(operations@),
                overwrite,
                k,
            ),
        final(queue)@ == state_after_batch(
            old(queue)@,
            op_views(operations@),
            overwrite,
            operations@.len() as int,
        ),
        path_texts(outcome.0.job_ids@) == admitted_ids(
            old(queue)@,
            op_views(operations@),
            overwrite,
            operations@.len() as int,
        ),
        path_texts(outcome.0.errors@) == refusals(
            old(queue)@,
            op_views(operations@),
            overwrite,
            operations@.len() as int,
        ),
        outcome.0.jobs_queued == outcome.0.job_ids@.len(),
        final(queue)@.wf(),
        old(queue)@.within_capacity() ==> final(queue)@.within_capacity(),
{
    let ghost start = queue@;
    let ghost ops = op_views(operations@);
    let mut job_ids: Vec<String> = Vec::new();
    let mut errors: Vec<String> = Vec::new();
    let mut admitted: Vec<bool> = Vec::new();
    let mut i: usize = 0;
    assert(path_texts(job_ids@) =~= Seq::<Seq<char>>::empty());
    assert(path_texts(errors@) =~= Seq::<Seq<char>>::empty());
    while i < operations.len()
        invariant
            i <= operations.len(),
            ops == op_views(operations@),
            queue@.wf(),
            start.within_capacity() ==> queue@.within_capacity(),
            queue@ == state_after_batch(start, ops, overwrite, i as int),
            path_texts(job_ids@) == admitted_ids(start, ops, overwrite, i as int),
            path_texts(errors@) == refusals(start, ops, overwrite, i as int),
            job_ids@.len() <= i,
            admitted@.len() == i,
            forall|k: int|
                0 <= k < i ==> (#[trigger] admitted@[k]) == is_admitted(start, ops, overwrite, k),
        decreases operations.len() - i,
    {
        assert(ops[i as int] == operations@[i as int]@);
        let ghost ids_before = path_texts(job_ids@);
        let ghost errors_before = path_texts(errors@);
        match admit_stream_removal(queue, &operations[i], overwrite) {
            Ok(id) => {
                job_ids.push(id);
                admitted.push(true);
                assert(path_texts(job_ids@) =~= ids_before.push(id@));
            },
            Err(message) => {
                errors.push(message);
                admitted.push(false);
                assert(path_texts(errors@) =~= errors_before.push(message@));
            },
        }
        i += 1;
    }
    (BulkStreamRemovalResult { jobs_queued: job_ids.len(), job_ids, errors }, admitted)
}

/// What the worker of a removal job does next.
#[derive(Debug, Clone, Copy, PartialEq, Eq, Structural)]
pub enum RemovalStep {
    /// The job was cancelled: the worker completes it and ends.
    GiveUp,
    /// The job holds an execution slot: the worker removes the streams.
    Proceed,
    /// The job waits: the worker sleeps for so many milliseconds and looks
    /// again.
    Wait { millis: u64 },
}

/// Decides what the worker of a removal job does next, from the cancel flag
/// of the job and from the kind of the running job of its file, if there is
/// one.
pub fn removal_worker_step(cancelled: bool, running: &Option<JobType>) -> (step: RemovalStep)
    ensures
        step == if cancelled {
            RemovalStep::GiveUp
        } else if running is Some && running->0 is StreamRemoval {
            RemovalStep::Proceed
        } else {
            (RemovalStep::Wait { millis: REMOVAL_POLL_MS })
        },
{
    if cancelled {
        return RemovalStep::GiveUp;
    }
    match running {
        Some(JobType::StreamRemoval { .. }) => RemovalStep::Proceed,
        _ => RemovalStep::Wait { millis: REMOVAL_POLL_MS },
    }
}

} // verus!
