use spur::clock::Instant;
use spur::ledger::{
    add_usage, attempt_number, job_accounting_states, project_end, project_start,
    record_job_end, record_job_finalization, record_job_start, record_job_start_exact,
    update_usage, AccountingRow, FinalizationReceipt, JobRun, JobStart, RunKey, RunMetadata,
    RunWrite,
};

fn at(secs: i64) -> Instant {
    Instant { secs, nanos: 0 }
}

const HOUR: i64 = 3_600;
const NOON: i64 = 1_750_003_200;

fn receipt() -> FinalizationReceipt {
    FinalizationReceipt {
        finalization_id: Some(11),
        state: "COMPLETED".into(),
        exit_code: 0,
        end_time: at(1_750_000_000),
        exit_signal: 0,
        derived_exit_code: 0,
    }
}

#[test]
fn immutable_finalization_replay_accepts_only_the_same_outcome() {
    let receipt = receipt();
    assert!(receipt.accepts_replay(&receipt));

    let mut conflicting_uuid = receipt.clone();
    conflicting_uuid.finalization_id = Some(12);
    assert!(!receipt.accepts_replay(&conflicting_uuid));

    let mut conflicting_payload = receipt.clone();
    conflicting_payload.exit_code = 1;
    assert!(!receipt.accepts_replay(&conflicting_payload));

    let mut legacy_reconcile = receipt.clone();
    legacy_reconcile.finalization_id = None;
    assert!(receipt.accepts_replay(&legacy_reconcile));
}

#[test]
fn replays_are_compared_by_the_microsecond() {
    let receipt = receipt();
    let mut later = receipt.clone();
    later.end_time.nanos = 999;
    assert!(receipt.accepts_replay(&later));
    later.end_time.nanos = 1_000;
    assert!(!receipt.accepts_replay(&later));
}

fn start(name: &str, user: &str, account: &str, partition: &str, submit: i64, begin: i64) -> JobStart {
    JobStart {
        name: name.into(),
        user_name: user.into(),
        account: account.into(),
        partition_name: partition.into(),
        num_nodes: 1,
        num_tasks: 2,
        cpus_per_task: 3,
        memory_mb: 1024,
        submit_time: at(submit),
        start_time: at(begin),
        reservation: "".into(),
    }
}

#[test]
fn record_job_start_overwrites_reused_job_id() {
    let old = start("old-job", "root", "acct-old", "debug", NOON - 3 * HOUR, NOON - 2 * HOUR);
    let row = record_job_start(&None, &old);
    let mut failed = receipt();
    failed.state = "FAILED".into();
    failed.exit_code = 137;
    failed.exit_signal = 9;
    failed.derived_exit_code = 137;
    failed.end_time = at(NOON - 2 * HOUR + 300);
    let row = record_job_end(&Some(row), &failed, at(NOON));
    assert_eq!(row.state, "FAILED");
    assert_eq!(row.exit_code, 137);

    let new = start("new-job", "vm", "acct-new", "gpu", NOON - HOUR - 1_800, NOON - HOUR);
    let history = record_job_start(&Some(row), &new);
    assert_eq!(history.name, "new-job");
    assert_eq!(history.user_name, "vm");
    assert_eq!(history.account, "acct-new");
    assert_eq!(history.partition_name, "gpu");
    assert_eq!(history.state, "RUNNING");
    assert_eq!(history.exit_code, 0);
    assert_eq!(history.exit_signal, 0);
    assert_eq!(history.derived_exit_code, 0);
    assert!(history.end_time.is_none());
    assert_eq!(
        history.submit_time,
        at(NOON - HOUR - 1_800),
        "submit_time must not carry over from the previous job"
    );
}

#[test]
fn a_reused_id_takes_the_reservation_of_its_own_start() {
    let mut old = start("old-job", "root", "acct-old", "debug", NOON - 3 * HOUR, NOON - 2 * HOUR);
    old.reservation = "maintenance".into();
    let mut row = record_job_start(&None, &old);
    assert_eq!(row.reservation, "maintenance");
    row.submission_generation = 9;
    row.run_attempt = 4;

    let mut new = start("new-job", "vm", "acct-new", "gpu", NOON - HOUR - 1_800, NOON - HOUR);
    new.reservation = "training".into();
    let running = record_job_start(&Some(row.clone()), &new);
    assert_eq!(running.reservation, "training");
    assert_eq!(running.submission_generation, 0);
    assert_eq!(running.run_attempt, 0);

    let ended = record_job_end(&Some(row), &receipt(), at(NOON));
    new.reservation = "".into();
    let running = record_job_start(&Some(ended), &new);
    assert_eq!(running.reservation, "");
    assert!(running.end_time.is_none());
}

#[test]
fn an_end_that_comes_first_is_kept_and_its_usage_is_due() {
    let mut failed = receipt();
    failed.state = "FAILED".into();
    failed.exit_code = 3;
    failed.exit_signal = 9;
    failed.derived_exit_code = 5;
    failed.end_time = at(NOON + 1_800);
    let bare = record_job_end(&None, &failed, at(NOON));
    assert!(bare.start_time.is_none());
    assert!(update_usage(&bare, failed.end_time).is_none());

    let mut begun = start("train", "alice", "research", "gpu", NOON - HOUR, NOON - 1_800);
    begun.reservation = "training".into();
    let row = record_job_start(&Some(bare), &begun);
    assert_eq!(row.state, "FAILED");
    assert_eq!(row.exit_code, 3);
    assert_eq!(row.exit_signal, 9);
    assert_eq!(row.derived_exit_code, 5);
    assert_eq!(row.end_time, Some(at(NOON + 1_800)));
    assert_eq!(row.start_time, Some(at(NOON - 1_800)));
    assert_eq!(row.user_name, "alice");
    assert_eq!(row.reservation, "training");
    let used = update_usage(&row, failed.end_time).unwrap();
    assert_eq!(used.user_name, "alice");
    assert_eq!(used.account, "research");
    assert_eq!(used.cpu_seconds, 3_600 * 6);
    assert_eq!(used.period_start, at(NOON - HOUR));
}

fn key(generation: u128, attempt: i32) -> RunKey {
    RunKey {
        job_id: 7,
        submission_generation: generation,
        run_attempt: attempt,
    }
}

fn run_of(write: RunWrite) -> JobRun {
    match write {
        RunWrite::Insert(run) | RunWrite::Replace(run) => run,
        RunWrite::Keep => panic!("nothing was written"),
    }
}

#[test]
fn a_start_is_written_once() {
    let begun = start("train", "alice", "research", "gpu", NOON, NOON + 60);
    let run = run_of(record_job_start_exact(&key(1, 1), &begun, &None).unwrap());
    assert!(run.start_recorded);
    assert!(matches!(
        record_job_start_exact(&key(1, 1), &begun, &Some(run.clone())),
        Ok(RunWrite::Keep)
    ));
    let mut other = begun.clone();
    other.user_name = "mallory".into();
    let refused = record_job_start_exact(&key(0x1234, 1), &other, &Some(run)).unwrap_err();
    assert!(
        refused.contains("00000000-0000-0000-0000-000000001234"),
        "{refused}"
    );
}

fn meta() -> RunMetadata {
    RunMetadata {
        user_name: "alice".into(),
        account: "research".into(),
        start_time: at(NOON),
        num_tasks: 2,
        cpus_per_task: 3,
    }
}

fn ended() -> FinalizationReceipt {
    let mut out = receipt();
    out.end_time = at(NOON + 100);
    out
}

#[test]
fn a_finalization_is_booked_once() {
    let first =
        record_job_finalization(&key(1, 1), &meta(), &ended(), &None, &None, &None).unwrap();
    let claim = first.claim.clone().expect("usage is claimed");
    assert_eq!(claim.cpu_seconds, 100 * 2 * 3);
    assert_eq!(claim.user_name, "alice");
    assert_eq!(claim.period_start, at(NOON));
    assert_eq!(claim.period_end, at(NOON + HOUR));
    let run = run_of(first.run);
    assert_eq!(run.state, "COMPLETED");
    assert!(!run.start_recorded);

    let again = record_job_finalization(
        &key(1, 1),
        &meta(),
        &ended(),
        &Some(key(1, 1)),
        &Some(run.clone()),
        &Some(claim.clone()),
    )
    .unwrap();
    assert!(again.claim.is_none(), "a replay adds no usage");

    let mut conflicting = ended();
    conflicting.exit_code = 1;
    assert!(record_job_finalization(
        &key(1, 1),
        &meta(),
        &conflicting,
        &Some(key(1, 1)),
        &Some(run),
        &Some(claim.clone())
    )
    .is_err());
    assert!(
        record_job_finalization(&key(2, 1), &meta(), &ended(), &Some(key(1, 1)), &None, &None)
            .is_err(),
        "one receipt belongs to one execution"
    );

    let usage = add_usage(&None, &claim).unwrap();
    assert_eq!(usage.cpu_seconds, 600);
    assert_eq!(usage.job_count, 1);
    let usage = add_usage(&Some(usage), &claim).unwrap();
    assert_eq!(usage.cpu_seconds, 1200);
    assert_eq!(usage.job_count, 2);
}

#[test]
fn the_order_of_start_and_end_does_not_matter() {
    let begun = start("train", "alice", "research", "gpu", NOON - 60, NOON);
    let started = run_of(record_job_start_exact(&key(1, 1), &begun, &None).unwrap());
    let start_first = run_of(
        record_job_finalization(&key(1, 1), &meta(), &ended(), &None, &Some(started), &None)
            .unwrap()
            .run,
    );
    let ended_first = run_of(
        record_job_finalization(&key(1, 1), &meta(), &ended(), &None, &None, &None)
            .unwrap()
            .run,
    );
    let end_first =
        run_of(record_job_start_exact(&key(1, 1), &begun, &Some(ended_first)).unwrap());
    assert_eq!(format!("{start_first:?}"), format!("{end_first:?}"));
}

#[test]
fn a_later_execution_stays() {
    let begun = start("train", "alice", "research", "gpu", NOON - 60, NOON);
    let first = project_start(&None, &key(1, 1), &begun).unwrap();
    let second = project_start(&Some(first), &key(1, 2), &begun).unwrap();
    assert_eq!(second.run_attempt, 2);
    assert!(
        project_end(&Some(second.clone()), &key(1, 1), &meta(), &ended()).is_none(),
        "the end of an earlier attempt leaves the row"
    );
    let done = project_end(&Some(second), &key(1, 2), &meta(), &ended()).unwrap();
    assert_eq!(done.state, "COMPLETED");
    assert_eq!(done.end_time, Some(at(NOON + 100)));
}

#[test]
fn usage_is_booked_in_the_hour_of_the_start() {
    let begun = start("train", "alice", "research", "gpu", NOON - 60, NOON - 1_800);
    let row = record_job_start(&None, &begun);
    let used = update_usage(&row, at(NOON + 1_800)).unwrap();
    assert_eq!(used.cpu_seconds, 3_600 * 6);
    assert_eq!(used.period_start, at(NOON - HOUR));
    assert_eq!(used.period_end, at(NOON));
}

#[test]
fn attempts_fit_their_column() {
    assert_eq!(attempt_number(1), Ok(1));
    assert_eq!(attempt_number(i32::MAX as u32), Ok(i32::MAX));
    assert!(attempt_number(i32::MAX as u32 + 1).is_err());
}

#[test]
fn rows_tell_what_the_ledger_knows() {
    let row = AccountingRow {
        job_id: 7,
        submission_generation: 1,
        run_attempt: 2,
        state: "RUNNING".into(),
        user_name: "".into(),
        start_time: None,
    };
    let states = job_accounting_states(&vec![row.clone()]).unwrap();
    let state = states.get(&7).unwrap();
    assert_eq!(state.run_attempt, 2);
    assert_eq!(state.state, "RUNNING");
    assert!(state.needs_start_backfill);
    let mut broken = row;
    broken.run_attempt = -1;
    assert!(job_accounting_states(&vec![broken]).is_err());
}
