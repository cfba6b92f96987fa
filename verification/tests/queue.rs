use seer::jobs::{
    active_job_count, cancel_all_jobs, cancel_job, clamp_limit, complete_job, enqueue_job,
    get_active_jobs, get_job_cancel_flag, get_job_details, get_queue_status, is_job_running,
    set_max_parallel_jobs, try_start_next_job, update_job_progress, Job, JobProgress, JobQueue,
    JobStartResult, JobType, DEFAULT_PARALLEL_JOBS, MAX_PARALLEL_JOBS, MIN_PARALLEL_JOBS,
};

fn started(result: &JobStartResult, id: &str) -> bool {
    matches!(result, JobStartResult::Started(found) if found == id)
}

fn queued(result: &JobStartResult, id: &str) -> bool {
    matches!(result, JobStartResult::Queued(found) if found == id)
}

fn rejected(result: &JobStartResult, id: &str) -> bool {
    matches!(result, JobStartResult::AlreadyExists(found) if found == id)
}

fn add(queue: &mut JobQueue, path: &str, id: &str) -> JobStartResult {
    enqueue_job(queue, path, id, JobType::BitrateAnalysis)
}

fn waiting(queue: &JobQueue) -> Vec<String> {
    get_queue_status(queue).queued.into_iter().map(|info| info.path).collect()
}

fn running(queue: &JobQueue) -> Vec<String> {
    let mut paths: Vec<String> =
        get_queue_status(queue).running.into_iter().map(|info| info.path).collect();
    paths.sort();
    paths
}

#[test]
fn test_queue_back_pressure() {
    let mut queue = JobQueue::new(2);
    let a = add(&mut queue, "/media/a.mkv", "hash-a");
    let b = add(&mut queue, "/media/b.mkv", "hash-b");
    let c = add(&mut queue, "/media/c.mkv", "hash-c");
    assert!(started(&a, "hash-a"));
    assert!(started(&b, "hash-b"));
    assert!(queued(&c, "hash-c"));
    assert_eq!(queue.running_count(), 2);
    assert_eq!(queue.queued_count(), 1);
    assert!(!is_job_running(&queue, "/media/c.mkv"));
    complete_job(&mut queue, "/media/a.mkv");
    assert_eq!(running(&queue), vec!["/media/b.mkv", "/media/c.mkv"]);
    assert_eq!(queue.queued_count(), 0);
    assert!(is_job_running(&queue, "/media/c.mkv"));
}

#[test]
fn test_queue_limits() {
    assert_eq!((MIN_PARALLEL_JOBS, MAX_PARALLEL_JOBS, DEFAULT_PARALLEL_JOBS), (1, 8, 4));
    assert_eq!(clamp_limit(0), 1);
    assert_eq!(clamp_limit(1), 1);
    assert_eq!(clamp_limit(8), 8);
    assert_eq!(clamp_limit(9), 8);
    assert_eq!(JobQueue::new(0).max_parallel(), 1);
    assert_eq!(JobQueue::new(100).max_parallel(), 8);
    assert_eq!(JobQueue::new(DEFAULT_PARALLEL_JOBS).max_parallel(), 4);
}

#[test]
fn test_queue_never_runs_more_than_the_limit() {
    let mut queue = JobQueue::new(3);
    let paths: Vec<String> = (0..10).map(|i| format!("/m/{}.mkv", i)).collect();
    for path in &paths {
        add(&mut queue, path, path);
        assert!(active_job_count(&queue) <= 3);
        assert!(queue.running_count() <= 3);
    }
    assert_eq!(active_job_count(&queue), 3);
    assert_eq!(queue.queued_count(), 7);
    for path in &paths {
        assert!(cancel_job(&mut queue, path) || !queue.is_queued_or_running(path));
        assert!(active_job_count(&queue) <= 3);
        assert!(queue.running_count() <= 3);
        complete_job(&mut queue, path);
        assert!(active_job_count(&queue) <= 3);
        assert!(queue.running_count() <= 3);
        assert_eq!(get_queue_status(&queue).running.len(), active_job_count(&queue));
    }
    assert_eq!(active_job_count(&queue), 0);
    assert_eq!(queue.queued_count(), 0);
}

#[test]
fn test_queue_rejects_a_second_job_for_a_path() {
    let mut queue = JobQueue::new(1);
    assert!(started(&add(&mut queue, "/m/a", "first"), "first"));
    assert!(rejected(&add(&mut queue, "/m/a", "second"), "first"));
    assert!(queued(&add(&mut queue, "/m/b", "third"), "third"));
    assert!(rejected(&add(&mut queue, "/m/b", "fourth"), "third"));
    assert_eq!(running(&queue), vec!["/m/a"]);
    assert_eq!(waiting(&queue), vec!["/m/b"]);
    assert!(queue.is_queued_or_running("/m/a"));
    assert!(queue.is_queued_or_running("/m/b"));
    assert!(!queue.is_queued_or_running("/m/c"));
}

#[test]
fn test_queue_is_first_in_first_out() {
    let mut queue = JobQueue::new(1);
    for name in ["/a", "/b", "/c", "/d"] {
        add(&mut queue, name, name);
    }
    assert_eq!(waiting(&queue), vec!["/b", "/c", "/d"]);
    complete_job(&mut queue, "/a");
    assert_eq!(running(&queue), vec!["/b"]);
    assert_eq!(waiting(&queue), vec!["/c", "/d"]);
    complete_job(&mut queue, "/missing");
    assert_eq!(running(&queue), vec!["/b"]);
    complete_job(&mut queue, "/b");
    assert_eq!(running(&queue), vec!["/c"]);
    assert_eq!(waiting(&queue), vec!["/d"]);
}

#[test]
fn test_cancel_queued_job_then_enqueue_again() {
    let mut queue = JobQueue::new(1);
    add(&mut queue, "/a", "1");
    assert!(queued(&add(&mut queue, "/b", "old"), "old"));
    assert!(cancel_job(&mut queue, "/b"));
    assert!(!queue.is_queued_or_running("/b"));
    assert_eq!(get_job_cancel_flag(&queue, "/b"), None);
    assert!(queued(&add(&mut queue, "/b", "new"), "new"));
    assert_eq!(waiting(&queue), vec!["/b"]);
    assert!(!cancel_job(&mut queue, "/nowhere"));
}

#[test]
fn test_cancel_running_job_keeps_it_until_completed() {
    let mut queue = JobQueue::new(1);
    add(&mut queue, "/a", "1");
    add(&mut queue, "/b", "2");
    assert_eq!(get_job_cancel_flag(&queue, "/a"), Some(false));
    assert_eq!(get_job_cancel_flag(&queue, "/b"), Some(false));
    assert!(cancel_job(&mut queue, "/a"));
    assert_eq!(get_job_cancel_flag(&queue, "/a"), Some(true));
    assert!(!is_job_running(&queue, "/a"));
    assert_eq!(active_job_count(&queue), 0);
    assert!(running(&queue).is_empty());
    assert_eq!(waiting(&queue), vec!["/b"]);
    assert!(rejected(&add(&mut queue, "/a", "again"), "1"));
    assert!(cancel_job(&mut queue, "/a"));
    assert_eq!(get_job_cancel_flag(&queue, "/a"), Some(true));
    assert_eq!(queue.running_count(), 1);
    assert!(queued(&add(&mut queue, "/c", "3"), "3"));
    assert_eq!(queue.running_count(), 1);
    complete_job(&mut queue, "/a");
    assert_eq!(running(&queue), vec!["/b"]);
    assert_eq!(waiting(&queue), vec!["/c"]);
    assert_eq!(queue.running_count(), 1);
    assert!(queued(&add(&mut queue, "/a", "again"), "again"));
    assert_eq!(get_job_cancel_flag(&queue, "/a"), Some(false));
}

#[test]
fn test_cancelled_running_job_holds_its_slot() {
    let mut queue = JobQueue::new(1);
    assert!(started(&add(&mut queue, "/a", "1"), "1"));
    assert!(cancel_job(&mut queue, "/a"));
    assert!(queued(&add(&mut queue, "/b", "2"), "2"));
    assert_eq!(queue.running_count(), 1);
    assert_eq!(active_job_count(&queue), 0);
    try_start_next_job(&mut queue);
    assert_eq!(queue.running_count(), 1);
    assert_eq!(waiting(&queue), vec!["/b"]);
    complete_job(&mut queue, "/missing");
    assert_eq!(queue.running_count(), 1);
    assert_eq!(waiting(&queue), vec!["/b"]);
    complete_job(&mut queue, "/a");
    assert_eq!(running(&queue), vec!["/b"]);
    assert_eq!(queue.running_count(), 1);
    assert!(waiting(&queue).is_empty());
}

#[test]
fn test_cancel_all_jobs() {
    let mut queue = JobQueue::new(2);
    for name in ["/a", "/b", "/c", "/d"] {
        add(&mut queue, name, name);
    }
    cancel_all_jobs(&mut queue);
    assert_eq!(active_job_count(&queue), 0);
    assert_eq!(queue.queued_count(), 0);
    assert_eq!(get_job_cancel_flag(&queue, "/a"), Some(true));
    assert_eq!(get_job_cancel_flag(&queue, "/b"), Some(true));
    assert_eq!(get_job_cancel_flag(&queue, "/c"), None);
    assert!(get_active_jobs(&queue).is_empty());
}

#[test]
fn test_set_max_parallel_twice_changes_nothing_more() {
    let mut queue = JobQueue::new(1);
    for name in ["/a", "/b", "/c", "/d"] {
        add(&mut queue, name, name);
    }
    set_max_parallel_jobs(&mut queue, 2);
    assert_eq!(running(&queue), vec!["/a", "/b"]);
    assert_eq!(waiting(&queue), vec!["/c", "/d"]);
    set_max_parallel_jobs(&mut queue, 2);
    assert_eq!(running(&queue), vec!["/a", "/b"]);
    assert_eq!(waiting(&queue), vec!["/c", "/d"]);
    assert_eq!(queue.max_parallel(), 2);
}

#[test]
fn test_set_max_parallel_promotes_only_when_raised() {
    let mut queue = JobQueue::new(2);
    for name in ["/a", "/b", "/c", "/d", "/e"] {
        add(&mut queue, name, name);
    }
    cancel_job(&mut queue, "/a");
    set_max_parallel_jobs(&mut queue, 2);
    assert_eq!(running(&queue), vec!["/b"]);
    set_max_parallel_jobs(&mut queue, 1);
    assert_eq!(queue.max_parallel(), 1);
    assert_eq!(running(&queue), vec!["/b"]);
    assert_eq!(waiting(&queue), vec!["/c", "/d", "/e"]);
    set_max_parallel_jobs(&mut queue, 100);
    assert_eq!(queue.max_parallel(), 8);
    assert_eq!(running(&queue), vec!["/b", "/c", "/d", "/e"]);
    assert!(waiting(&queue).is_empty());
    assert_eq!(queue.running_count(), 5);
    set_max_parallel_jobs(&mut queue, 0);
    assert_eq!(queue.max_parallel(), 1);
    assert_eq!(active_job_count(&queue), 4);
    assert_eq!(queue.running_count(), 5);
    set_max_parallel_jobs(&mut queue, 3);
    add(&mut queue, "/f", "/f");
    set_max_parallel_jobs(&mut queue, 4);
    assert_eq!(waiting(&queue), vec!["/f"]);
    set_max_parallel_jobs(&mut queue, 6);
    assert!(waiting(&queue).is_empty());
    assert_eq!(queue.running_count(), 6);
}

#[test]
fn test_try_start_next_job_fills_free_slots() {
    let mut queue = JobQueue::new(2);
    for name in ["/a", "/b", "/c", "/d"] {
        add(&mut queue, name, name);
    }
    cancel_job(&mut queue, "/a");
    cancel_job(&mut queue, "/b");
    assert_eq!(active_job_count(&queue), 0);
    try_start_next_job(&mut queue);
    assert!(running(&queue).is_empty());
    assert_eq!(waiting(&queue), vec!["/c", "/d"]);
    complete_job(&mut queue, "/a");
    assert_eq!(running(&queue), vec!["/c"]);
    assert_eq!(waiting(&queue), vec!["/d"]);
    complete_job(&mut queue, "/b");
    assert_eq!(running(&queue), vec!["/c", "/d"]);
    try_start_next_job(&mut queue);
    assert_eq!(running(&queue), vec!["/c", "/d"]);
    assert_eq!(queue.running_count(), 2);
}

#[test]
fn test_queue_status_and_progress() {
    let mut queue = JobQueue::new(1);
    enqueue_job(
        &mut queue,
        "/a",
        "1",
        JobType::StreamRemoval { stream_indices: vec![1, 2], overwrite: true },
    );
    enqueue_job(
        &mut queue,
        "/b",
        "2",
        JobType::DependencyInstallation { tool: "ffmpeg".to_string(), method: "apt".to_string() },
    );
    update_job_progress(
        &mut queue,
        "/a",
        JobProgress { current: 3, total: 9, percentage: 33, stage: "Working".to_string() },
    );
    update_job_progress(
        &mut queue,
        "/b",
        JobProgress { current: 1, total: 1, percentage: 100, stage: "Ignored".to_string() },
    );
    let status = get_queue_status(&queue);
    assert_eq!(status.max_parallel, 1);
    assert_eq!(status.running.len(), 1);
    assert_eq!(status.queued.len(), 1);
    let first = &status.running[0];
    assert_eq!(first.job_id, 0);
    assert_eq!(first.path, "/a");
    assert_eq!(first.state, "running:stream_removal");
    assert!(first.started_at.is_some());
    assert_eq!(first.progress_current, Some(3));
    assert_eq!(first.progress_total, Some(9));
    assert_eq!(first.progress_percentage, Some(33));
    assert_eq!(first.progress_stage, Some("Working".to_string()));
    let second = &status.queued[0];
    assert_eq!(second.state, "queued:dependency_installation");
    assert!(second.started_at.is_none());
    assert_eq!(second.progress_current, Some(0));
    assert_eq!(second.progress_total, Some(100));
    assert_eq!(second.progress_percentage, Some(0));
    assert_eq!(second.progress_stage, Some("Starting...".to_string()));
    assert!(matches!(
        get_job_details(&queue, "/a"),
        Some(JobType::StreamRemoval { stream_indices, overwrite: true }) if stream_indices == vec![1, 2]
    ));
    assert!(get_job_details(&queue, "/b").is_none());
    let active = get_active_jobs(&queue);
    assert_eq!(active.len(), 1);
    assert_eq!(active[0].path, "/a");
    assert_eq!(active[0].job_id, 0);
}

#[test]
fn test_job_lifecycle() {
    let mut job = Job::new("/a".to_string(), "h".to_string(), JobType::BitrateAnalysis);
    assert_eq!(job.id, "h");
    assert_eq!(job.path, "/a");
    assert_eq!(job.job_type.name(), "bitrate_analysis");
    assert!(!job.is_cancelled());
    assert!(job.started_at.is_none());
    assert_eq!(job.get_progress().stage, "Starting...");
    job.start();
    assert!(job.started_at.is_some());
    job.cancel();
    assert!(job.is_cancelled());
    job.cancel();
    assert!(job.is_cancelled());
    job.update_progress(JobProgress { current: 1, total: 2, percentage: 50, stage: "Half".to_string() });
    let progress = job.get_progress();
    assert_eq!((progress.current, progress.total, progress.percentage), (1, 2, 50));
    assert_eq!(progress.stage, "Half");
    let copy = job.clone();
    assert!(copy.is_cancelled());
    assert_eq!(copy.path, "/a");
    let default = JobProgress::default();
    assert_eq!((default.current, default.total, default.percentage), (0, 100, 0));
}

#[test]
fn test_bitrate_job_lifecycle() {
    let mut job = seer::jobs::BitrateJob::new("/m/a.mkv".to_string(), "abc".to_string());
    assert_eq!(job.id, "abc");
    assert_eq!(job.path, "/m/a.mkv");
    assert!(!job.is_cancelled());
    assert!(job.started_at.is_none());
    job.start();
    assert!(job.started_at.is_some());
    assert!(!job.is_cancelled());
    job.cancel();
    assert!(job.is_cancelled());
    job.cancel();
    assert!(job.is_cancelled());
    let queued = job.into_job();
    assert_eq!(queued.id, "abc");
    assert_eq!(queued.path, "/m/a.mkv");
    assert!(queued.is_cancelled());
    assert!(queued.started_at.is_some());
    assert_eq!(queued.job_type.name(), "bitrate_analysis");
    assert_eq!(queued.get_progress().percentage, 0);
}

#[test]
fn test_is_job_cancelled() {
    let mut queue = JobQueue::new(1);
    assert!(seer::jobs::is_job_cancelled(&queue, "/a"));
    add(&mut queue, "/a", "1");
    add(&mut queue, "/b", "2");
    assert!(!seer::jobs::is_job_cancelled(&queue, "/a"));
    assert!(!seer::jobs::is_job_cancelled(&queue, "/b"));
    cancel_job(&mut queue, "/a");
    assert!(seer::jobs::is_job_cancelled(&queue, "/a"));
    cancel_job(&mut queue, "/b");
    assert!(seer::jobs::is_job_cancelled(&queue, "/b"));
    complete_job(&mut queue, "/a");
    assert!(seer::jobs::is_job_cancelled(&queue, "/a"));
}
