//! Telling the accounting database of starts and ends: what is written, and how
//! often it is tried.

use vstd::prelude::*;
use crate::clock::Instant;
use crate::job_state::JobState;
use crate::ledger::{
    attempt_number, recorded, FinalizationReceipt, FinalizationReceiptView, JobStart, JobStartView,
    RunKey, RunKeyView, RunMetadata, RunMetadataView,
};
use crate::uuids::is_nil;

verus! {

/// How often a write is tried.
pub const RETRY_ATTEMPTS: u32 = 3;

/// The pause before the second try, in milliseconds.
pub const RETRY_BACKOFF_MILLIS: u64 = 200;

/// How long one try may take, in seconds.
pub const ATTEMPT_TIMEOUT_SECS: u64 = 10;

/// What came of a try.
#[derive(Debug)]
pub enum AttemptOutcome {
    Succeeded,
    Failed(String),
    TimedOut,
}

/// What follows a try.
#[derive(Debug)]
pub enum RetryStep {
    /// Nothing: it succeeded.
    Done,
    /// Nothing: it failed for the last time.
    GiveUp(String),
    /// Wait, then try again; after that try the pause is longer.
    Again { pause_millis: u64, attempt: u32, next_pause_millis: u64 },
}

/// What a [`RetryStep`] holds.
pub enum RetryStepView {
    Done,
    GiveUp(Seq<char>),
    Again { pause_millis: u64, attempt: u32, next_pause_millis: u64 },
}

impl View for RetryStep {
    type V = RetryStepView;

    open spec fn view(&self) -> RetryStepView {
        match self {
            RetryStep::Done => RetryStepView::Done,
            RetryStep::GiveUp(error) => RetryStepView::GiveUp(error@),
            RetryStep::Again { pause_millis, attempt, next_pause_millis } => RetryStepView::Again {
                pause_millis: *pause_millis,
                attempt: *attempt,
                next_pause_millis: *next_pause_millis,
            },
        }
    }
}

/// What follows the try with number `attempt`, of `attempts` at most.
pub open spec fn retried(
    attempt: u32,
    attempts: u32,
    backoff_millis: u64,
    outcome: AttemptOutcome,
) -> RetryStepView {
    match outcome {
        AttemptOutcome::Succeeded => RetryStepView::Done,
        AttemptOutcome::Failed(error) => if attempt >= attempts {
            RetryStepView::GiveUp(error@)
        } else {
            again(attempt, backoff_millis)
        },
        AttemptOutcome::TimedOut => if attempt >= attempts {
            RetryStepView::GiveUp("operation timed out after 10s"@)
        } else {
            again(attempt, backoff_millis)
        },
    }
}

/// Another try, after a pause that doubles each time.
pub open spec fn again(attempt: u32, backoff_millis: u64) -> RetryStepView {
    RetryStepView::Again {
        pause_millis: backoff_millis,
        attempt: (attempt + 1) as u32,
        next_pause_millis: (backoff_millis * 2) as u64,
    }
}

/// What follows the try with number `attempt`, of `attempts` at most. The first
/// try has number one.
pub fn retry_with_backoff(
    attempt: u32,
    attempts: u32,
    backoff_millis: u64,
    outcome: AttemptOutcome,
) -> (out: RetryStep)
    requires
        attempt < attempts && !(outcome is Succeeded) ==> backoff_millis * 2 <= u64::MAX,
    ensures
        out@ == retried(attempt, attempts, backoff_millis, outcome),
{
    match outcome {
        AttemptOutcome::Succeeded => RetryStep::Done,
        AttemptOutcome::Failed(error) => {
            if attempt >= attempts {
                return RetryStep::GiveUp(error);
            }
            RetryStep::Again {
                pause_millis: backoff_millis,
                attempt: attempt + 1,
                next_pause_millis: backoff_millis * 2,
            }
        },
        AttemptOutcome::TimedOut => {
            if attempt >= attempts {
                return RetryStep::GiveUp("operation timed out after 10s".to_owned());
            }
            RetryStep::Again {
                pause_millis: backoff_millis,
                attempt: attempt + 1,
                next_pause_millis: backoff_millis * 2,
            }
        },
    }
}

/// A write that keeps failing is tried as often as allowed and no more; one that
/// succeeds is not tried again.
pub proof fn law_tries_are_bounded(
    attempt: u32,
    attempts: u32,
    backoff_millis: u64,
    outcome: AttemptOutcome,
)
    requires
        1 <= attempt <= attempts,
    ensures
        retried(attempt, attempts, backoff_millis, outcome) matches RetryStepView::Again {
            attempt: next,
            ..
        } ==> next == attempt + 1 && next <= attempts,
        outcome is Succeeded <==> retried(attempt, attempts, backoff_millis, outcome) is Done,
        !(outcome is Succeeded) && attempt == attempts ==> retried(
            attempt,
            attempts,
            backoff_millis,
            outcome,
        ) is GiveUp,
{
}

/// How an execution of a job started.
#[derive(Clone, Debug, PartialEq)]
pub struct JobStartRecord {
    pub job_id: u32,
    pub submission_generation: u128,
    pub run_attempt: u32,
    pub name: String,
    pub user: String,
    pub account: String,
    pub partition: String,
    pub num_nodes: u32,
    pub num_tasks: u32,
    pub cpus_per_task: u32,
    pub memory_mb: u64,
    pub submit_time: Instant,
    pub start_time: Instant,
    pub reservation: Option<String>,
}

/// How an execution of a job ended.
#[derive(Clone, Debug, PartialEq)]
pub struct JobEndRecord {
    pub job_id: u32,
    pub submission_generation: u128,
    pub run_attempt: u32,
    /// The identity of the finalization; nil for one that is known by its
    /// execution alone.
    pub finalization_id: u128,
    pub state: JobState,
    pub exit_code: i32,
    pub end_time: Instant,
    pub exit_signal: i32,
    pub derived_exit_code: i32,
    pub user: String,
    pub account: String,
    pub start_time: Instant,
    pub num_tasks: u32,
    pub cpus_per_task: u32,
}

/// The key of an execution, where its attempt can be written down.
pub open spec fn key_of(job_id: u32, submission_generation: u128, run_attempt: u32) -> Result<
    RunKeyView,
    Seq<char>,
> {
    if run_attempt > i32::MAX {
        Err("out of range integral type conversion attempted"@)
    } else {
        Ok(
            RunKeyView {
                job_id: job_id as i32,
                submission_generation,
                run_attempt: run_attempt as i32,
            },
        )
    }
}

/// The key of an execution, where its attempt can be written down.
pub fn run_key(job_id: u32, submission_generation: u128, run_attempt: u32) -> (out: Result<
    RunKey,
    String,
>)
    ensures
        recorded(out) == key_of(job_id, submission_generation, run_attempt),
{
    match attempt_number(run_attempt) {
        Err(message) => Err(message),
        Ok(attempt) => Ok(
            RunKey {
                job_id: #[verifier::truncate]
                (job_id as i32),
                submission_generation,
                run_attempt: attempt,
            },
        ),
    }
}

/// The start that is written for a record.
pub open spec fn start_written(record: JobStartRecord) -> JobStartView {
    JobStartView {
        name: record.name@,
        user_name: record.user@,
        account: record.account@,
        partition_name: record.partition@,
        num_nodes: record.num_nodes as i32,
        num_tasks: record.num_tasks as i32,
        cpus_per_task: record.cpus_per_task as i32,
        memory_mb: record.memory_mb as i64,
        submit_time: record.submit_time,
        start_time: record.start_time,
        reservation: match record.reservation {
            Some(reservation) => reservation@,
            None => Seq::empty(),
        },
    }
}

/// The start that is written for a record.
pub fn notify_job_start_ordered(record: &JobStartRecord) -> (out: JobStart)
    ensures
        out@ == start_written(*record),
{
    JobStart {
        name: record.name.clone(),
        user_name: record.user.clone(),
        account: record.account.clone(),
        partition_name: record.partition.clone(),
        num_nodes: #[verifier::truncate]
        (record.num_nodes as i32),
        num_tasks: #[verifier::truncate]
        (record.num_tasks as i32),
        cpus_per_task: #[verifier::truncate]
        (record.cpus_per_task as i32),
        memory_mb: #[verifier::truncate]
        (record.memory_mb as i64),
        submit_time: record.submit_time,
        start_time: record.start_time,
        reservation: match &record.reservation {
            Some(reservation) => reservation.clone(),
            None => String::new(),
        },
    }
}

/// The end that is written for a record, whose state has this name.
pub open spec fn end_written(record: JobEndRecord, state: Seq<char>) -> (
    RunMetadataView,
    FinalizationReceiptView,
) {
    (
        RunMetadataView {
            user_name: record.user@,
            account: record.account@,
            start_time: record.start_time,
            num_tasks: record.num_tasks as i32,
            cpus_per_task: record.cpus_per_task as i32,
        },
        FinalizationReceiptView {
            finalization_id: if record.finalization_id == 0 {
                None
            } else {
                Some(record.finalization_id)
            },
            state,
            exit_code: record.exit_code,
            end_time: record.end_time,
            exit_signal: record.exit_signal,
            derived_exit_code: record.derived_exit_code,
        },
    )
}

/// The end that is written for a record, whose state has this name.
pub fn notify_job_end_ordered(record: &JobEndRecord, state: &str) -> (out: (
    RunMetadata,
    FinalizationReceipt,
))
    ensures
        (out.0@, out.1@) == end_written(*record, state@),
{
    let finalization_id: Option<u128> = if is_nil(record.finalization_id) {
        None
    } else {
        Some(record.finalization_id)
    };
    (
        RunMetadata {
            user_name: record.user.clone(),
            account: record.account.clone(),
            start_time: record.start_time,
            num_tasks: #[verifier::truncate]
            (record.num_tasks as i32),
            cpus_per_task: #[verifier::truncate]
            (record.cpus_per_task as i32),
        },
        FinalizationReceipt {
            finalization_id,
            state: state.to_owned(),
            exit_code: record.exit_code,
            end_time: record.end_time,
            exit_signal: record.exit_signal,
            derived_exit_code: record.derived_exit_code,
        },
    )
}

/// The pause before each further try is twice the one before it, and the last
/// error is the one that is told.
pub proof fn law_pauses_double(attempt: u32, attempts: u32, backoff_millis: u64, error: String)
    requires
        1 <= attempt,
        attempt < u32::MAX,
        backoff_millis * 2 <= u64::MAX,
    ensures
        attempt < attempts ==> (retried(
            attempt,
            attempts,
            backoff_millis,
            AttemptOutcome::Failed(error),
        ) matches RetryStepView::Again { pause_millis, attempt: next, next_pause_millis }
            && pause_millis == backoff_millis && next == attempt + 1 && next_pause_millis == 2
            * pause_millis),
        attempt >= attempts ==> retried(
            attempt,
            attempts,
            backoff_millis,
            AttemptOutcome::Failed(error),
        ) == RetryStepView::GiveUp(error@),
        attempt < attempts ==> retried(
            attempt,
            attempts,
            backoff_millis,
            AttemptOutcome::TimedOut,
        ) == retried(attempt, attempts, backoff_millis, AttemptOutcome::Failed(error)),
        retried(attempt, attempts, backoff_millis, AttemptOutcome::Succeeded) is Done,
{
}

/// The start that is written is the start that was told: each value under its
/// own name, and no reservation as the empty one.
pub proof fn law_written_start_is_the_start(record: JobStartRecord)
    requires
        record.num_nodes <= i32::MAX,
        record.num_tasks <= i32::MAX,
        record.cpus_per_task <= i32::MAX,
        record.memory_mb <= i64::MAX,
    ensures
        ({
            let written = start_written(record);
            &&& written.name == record.name@
            &&& written.user_name == record.user@
            &&& written.account == record.account@
            &&& written.partition_name == record.partition@
            &&& written.num_nodes == record.num_nodes
            &&& written.num_tasks == record.num_tasks
            &&& written.cpus_per_task == record.cpus_per_task
            &&& written.memory_mb == record.memory_mb
            &&& written.submit_time == record.submit_time
            &&& written.start_time == record.start_time
            &&& record.reservation is Some ==> written.reservation == (record.reservation->0)@
            &&& record.reservation is None ==> written.reservation.len() == 0
        }),
{
}

/// The end that is written is the end that was told; a finalization without an
/// identity is written without one.
pub proof fn law_written_end_is_the_end(record: JobEndRecord, state: Seq<char>)
    requires
        record.num_tasks <= i32::MAX,
        record.cpus_per_task <= i32::MAX,
    ensures
        ({
            let (run, receipt) = end_written(record, state);
            &&& run.user_name == record.user@
            &&& run.account == record.account@
            &&& run.start_time == record.start_time
            &&& run.num_tasks == record.num_tasks
            &&& run.cpus_per_task == record.cpus_per_task
            &&& receipt.state == state
            &&& receipt.exit_code == record.exit_code
            &&& receipt.end_time == record.end_time
            &&& receipt.exit_signal == record.exit_signal
            &&& receipt.derived_exit_code == record.derived_exit_code
            &&& record.finalization_id == 0 ==> receipt.finalization_id is None
            &&& record.finalization_id != 0 ==> receipt.finalization_id == Some(
                record.finalization_id,
            )
        }),
{
}

/// A run is written under its own job, submission and attempt, where the attempt
/// fits its column.
pub proof fn law_run_key_names_the_run(job_id: u32, submission_generation: u128, run_attempt: u32)
    requires
        job_id <= i32::MAX,
    ensures
        key_of(job_id, submission_generation, run_attempt) is Ok <==> run_attempt <= i32::MAX,
        key_of(job_id, submission_generation, run_attempt) matches Ok(key) ==> key.job_id == job_id
            && key.submission_generation == submission_generation && key.run_attempt
            == run_attempt,
{
}

/// A write is tried three times: the second try comes two tenths of a second
/// after the first, the third four tenths after the second, and none follows.
pub proof fn law_writes_are_tried_three_times(error: String)
    ensures
        retried(1, RETRY_ATTEMPTS, RETRY_BACKOFF_MILLIS, AttemptOutcome::Failed(error))
            == (RetryStepView::Again { pause_millis: 200, attempt: 2, next_pause_millis: 400 }),
        retried(2, RETRY_ATTEMPTS, 400, AttemptOutcome::Failed(error)) == (RetryStepView::Again {
            pause_millis: 400,
            attempt: 3,
            next_pause_millis: 800,
        }),
        retried(3, RETRY_ATTEMPTS, 800, AttemptOutcome::Failed(error)) == RetryStepView::GiveUp(
            error@,
        ),
{
}

} // verus!
