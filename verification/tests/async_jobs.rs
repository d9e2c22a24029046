use leviathan_plugins::async_jobs::{poll_outcome, WorkerPoll};
use leviathan_plugins::async_jobs::{
    AsyncJobRegistration, AsyncJobRegistry, CancellationToken, JobOutcome, JobStatus,
};
use leviathan_plugins::json::JsonValue;

fn registration(reg: &mut AsyncJobRegistry, plugin: &str, generation: u64) -> (leviathan_plugins::async_jobs::JobId, CancellationToken) {
    let job_id = reg.allocate_job_id();
    let cancel = CancellationToken::new();
    reg.register(AsyncJobRegistration {
        plugin_id: plugin.into(),
        generation_id: generation,
        job_id,
        resource_id: 1,
        cancel: cancel.clone(),
    });
    (job_id, cancel)
}

#[test]
fn cancel_for_generation_removes_records() {
    let mut reg = AsyncJobRegistry::new();
    let (job_id, cancel) = registration(&mut reg, "p", 1);
    let removed = reg.cancel_for_generation("p", 1);
    assert_eq!(removed, vec![job_id]);
    assert!(!reg.is_alive(job_id));
    assert!(cancel.is_cancelled());
}

#[test]
fn job_ids_count_up_from_one() {
    let mut reg = AsyncJobRegistry::new();
    assert_eq!(reg.allocate_job_id().get(), 1);
    assert_eq!(reg.allocate_job_id().get(), 2);
}

#[test]
fn completion_hands_back_the_outcome_once() {
    let mut reg = AsyncJobRegistry::new();
    let (job_id, _) = registration(&mut reg, "p", 1);
    assert!(reg.has_jobs());
    let drained = reg.complete(job_id, JobOutcome::Done(JsonValue::Null)).unwrap();
    assert_eq!(drained.job_id, job_id);
    assert!(matches!(drained.outcome, JobOutcome::Done(JsonValue::Null)));
    assert!(!reg.is_alive(job_id));
    assert!(!reg.has_jobs());
    assert!(reg.complete(job_id, JobOutcome::Cancelled).is_none());
}

#[test]
fn dropped_generation_gets_no_completion() {
    let mut reg = AsyncJobRegistry::new();
    let (a, _) = registration(&mut reg, "p", 1);
    let (b, _) = registration(&mut reg, "p", 2);
    let (c, _) = registration(&mut reg, "q", 1);
    assert_eq!(reg.cancel_for_generation("p", 1), vec![a]);
    assert!(reg.complete(a, JobOutcome::Failed("late".into())).is_none());
    assert!(reg.is_alive(b));
    assert!(reg.is_alive(c));
}

#[test]
fn cancel_raises_the_token() {
    let mut reg = AsyncJobRegistry::new();
    let (a, token) = registration(&mut reg, "p", 1);
    assert!(!token.is_cancelled());
    reg.cancel(a);
    assert!(token.is_cancelled());
    assert!(reg.is_alive(a));
}

#[test]
fn summaries_sort_by_plugin_generation_and_id() {
    let mut reg = AsyncJobRegistry::new();
    registration(&mut reg, "z", 1);
    registration(&mut reg, "a", 2);
    registration(&mut reg, "a", 1);
    let rows: Vec<(String, u64, u64, String)> = reg
        .summaries()
        .into_iter()
        .map(|s| (s.plugin_id, s.generation_id, s.job_id, s.status))
        .collect();
    assert_eq!(
        rows,
        vec![
            ("a".to_string(), 1, 3, "running".to_string()),
            ("a".to_string(), 2, 2, "running".to_string()),
            ("z".to_string(), 1, 1, "running".to_string()),
        ]
    );
}

#[test]
fn job_status_names() {
    assert_eq!(JobStatus::Running.as_str(), "running");
    assert_eq!(JobStatus::Finished.as_str(), "finished");
    assert_eq!(JobStatus::Cancelled.as_str(), "cancelled");
    assert_eq!(JobStatus::Failed.as_str(), "failed");
}

#[test]
fn a_dropped_worker_counts_as_failed() {
    assert!(poll_outcome(WorkerPoll::Waiting).is_none());
    assert!(matches!(poll_outcome(WorkerPoll::Reported(JobOutcome::Cancelled)), Some(JobOutcome::Cancelled)));
    match poll_outcome(WorkerPoll::Dropped) {
        Some(JobOutcome::Failed(m)) => assert_eq!(m, "async worker dropped before sending result"),
        _ => panic!("expected a failure"),
    }
}

#[test]
fn draining_hands_out_finished_jobs_in_poll_order() {
    let mut reg = AsyncJobRegistry::new();
    let (a, _) = registration(&mut reg, "p", 1);
    let (b, _) = registration(&mut reg, "p", 1);
    let (c, _) = registration(&mut reg, "q", 2);
    let stale = leviathan_plugins::async_jobs::JobId::new(99);
    let drained = reg.drain_polled(vec![
        (c, WorkerPoll::Dropped),
        (b, WorkerPoll::Waiting),
        (stale, WorkerPoll::Reported(JobOutcome::Cancelled)),
        (a, WorkerPoll::Reported(JobOutcome::Done(JsonValue::Bool(true)))),
    ]);
    assert_eq!(drained.len(), 2);
    assert_eq!(drained[0].job_id, c);
    assert_eq!(drained[0].plugin_id, "q");
    match &drained[0].outcome {
        JobOutcome::Failed(m) => assert_eq!(m, "async worker dropped before sending result"),
        other => panic!("unexpected outcome: {:?}", other),
    }
    assert_eq!(drained[1].job_id, a);
    assert!(matches!(drained[1].outcome, JobOutcome::Done(JsonValue::Bool(true))));
    assert!(reg.is_alive(b));
    assert!(!reg.is_alive(a) && !reg.is_alive(c));
    assert!(reg.drain_polled(vec![(a, WorkerPoll::Dropped)]).is_empty());
}
