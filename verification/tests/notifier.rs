use spur::clock::Instant;
use spur::job_state::JobState;
use spur::notifier::{
    notify_job_end_ordered, notify_job_start_ordered, retry_with_backoff, run_key, AttemptOutcome,
    JobEndRecord, JobStartRecord, RetryStep, RETRY_ATTEMPTS, RETRY_BACKOFF_MILLIS,
};

/// Runs `attempts` tries with the given outcomes; gives the number of calls, the
/// pauses, and the last step.
fn run(
    attempts: u32,
    backoff_millis: u64,
    outcome: impl Fn(u32) -> AttemptOutcome,
) -> (u32, Vec<u64>, RetryStep) {
    let mut calls = 0;
    let mut pauses = vec![];
    let mut attempt = 1;
    let mut pause = backoff_millis;
    loop {
        calls += 1;
        match retry_with_backoff(attempt, attempts, pause, outcome(calls)) {
            RetryStep::Again {
                pause_millis,
                attempt: next,
                next_pause_millis,
            } => {
                pauses.push(pause_millis);
                attempt = next;
                pause = next_pause_millis;
            }
            last => return (calls, pauses, last),
        }
    }
}

#[test]
fn retry_with_backoff_gives_up_after_all_attempts_fail() {
    let (calls, _, last) = run(3, 1, |_| AttemptOutcome::Failed("boom".into()));
    assert!(matches!(last, RetryStep::GiveUp(_)));
    assert_eq!(calls, 3);
}

#[test]
fn retry_with_backoff_stops_on_first_success() {
    let (calls, _, last) = run(3, 1, |n| {
        if n < 2 {
            AttemptOutcome::Failed("transient".into())
        } else {
            AttemptOutcome::Succeeded
        }
    });
    assert!(matches!(last, RetryStep::Done));
    assert_eq!(calls, 2);
}

#[test]
fn pauses_double() {
    let (_, pauses, last) = run(RETRY_ATTEMPTS, RETRY_BACKOFF_MILLIS, |_| {
        AttemptOutcome::TimedOut
    });
    assert_eq!(pauses, vec![200, 400]);
    assert!(matches!(last, RetryStep::GiveUp(_)));
}

#[test]
fn run_keys_fit_the_columns() {
    let key = run_key(7, 9, 2).unwrap();
    assert_eq!((key.job_id, key.submission_generation, key.run_attempt), (7, 9, 2));
    assert!(run_key(7, 9, u32::MAX).is_err());
}

const AT: Instant = Instant {
    secs: 1_750_000_000,
    nanos: 0,
};

#[test]
fn records_are_written_as_rows() {
    let start = notify_job_start_ordered(&JobStartRecord {
        job_id: 7,
        submission_generation: 9,
        run_attempt: 1,
        name: "train".into(),
        user: "alice".into(),
        account: "research".into(),
        partition: "gpu".into(),
        num_nodes: 2,
        num_tasks: 4,
        cpus_per_task: 8,
        memory_mb: 1024,
        submit_time: AT,
        start_time: AT,
        reservation: None,
    });
    assert_eq!(start.name, "train");
    assert_eq!(start.user_name, "alice");
    assert_eq!(start.partition_name, "gpu");
    assert_eq!(start.memory_mb, 1024);
    assert_eq!(start.reservation, "");

    let mut end = JobEndRecord {
        job_id: 7,
        submission_generation: 9,
        run_attempt: 1,
        finalization_id: 0,
        state: JobState::Failed,
        exit_code: 3,
        end_time: AT,
        exit_signal: 9,
        derived_exit_code: 4,
        user: "alice".into(),
        account: "research".into(),
        start_time: AT,
        num_tasks: 4,
        cpus_per_task: 8,
    };
    let (meta, receipt) = notify_job_end_ordered(&end, "FAILED");
    assert_eq!(meta.num_tasks, 4);
    assert_eq!(receipt.state, "FAILED");
    assert_eq!(receipt.exit_code, 3);
    assert_eq!(receipt.exit_signal, 9);
    assert_eq!(receipt.derived_exit_code, 4);
    assert_eq!(receipt.finalization_id, None, "a nil identity is none");
    end.finalization_id = 5;
    assert_eq!(
        notify_job_end_ordered(&end, "FAILED").1.finalization_id,
        Some(5)
    );
}
