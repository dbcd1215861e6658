//! The ledger of executions: one immutable record per execution, the projection
//! of the latest execution of each job, and the usage that each execution adds
//! exactly once.

use vstd::prelude::*;
use crate::clock::{
    seconds_between, signed_seconds_between, start_of_hour, timestamp_micros, Instant, MAX_SECS,
};
use crate::execution_identity::is_blank;
use crate::plain::Plain;
use crate::plainmap::PlainMap;
use crate::text::{i64_text, join2, join3, signed_decimal};
use crate::uuids::{to_text, uuid_text};

verus! {

/// Which execution: a job ID may be reused, and a job may run more than once.
#[derive(Clone, Debug)]
pub struct RunKey {
    pub job_id: i32,
    pub submission_generation: u128,
    pub run_attempt: i32,
}

/// What a [`RunKey`] holds.
#[verifier::ext_equal]
pub struct RunKeyView {
    pub job_id: i32,
    pub submission_generation: u128,
    pub run_attempt: i32,
}

impl View for RunKey {
    type V = RunKeyView;

    open spec fn view(&self) -> RunKeyView {
        RunKeyView {
            job_id: self.job_id.deep_view(),
            submission_generation: self.submission_generation.deep_view(),
            run_attempt: self.run_attempt.deep_view(),
        }
    }
}

impl DeepView for RunKey {
    type V = RunKeyView;

    open spec fn deep_view(&self) -> RunKeyView {
        self@
    }
}

impl Plain for RunKey {
    fn equals(&self, other: &Self) -> (same: bool) {
        self.job_id.equals(&other.job_id)
            && self.submission_generation.equals(&other.submission_generation)
            && self.run_attempt.equals(&other.run_attempt)
    }

    fn copy_of(&self) -> (out: Self) {
        RunKey {
            job_id: self.job_id.copy_of(),
            submission_generation: self.submission_generation.copy_of(),
            run_attempt: self.run_attempt.copy_of(),
        }
    }
}

/// How an execution started.
#[derive(Clone, Debug)]
pub struct JobStart {
    pub name: String,
    pub user_name: String,
    pub account: String,
    pub partition_name: String,
    pub num_nodes: i32,
    pub num_tasks: i32,
    pub cpus_per_task: i32,
    pub memory_mb: i64,
    pub submit_time: Instant,
    pub start_time: Instant,
    pub reservation: String,
}

/// What a [`JobStart`] holds.
#[verifier::ext_equal]
pub struct JobStartView {
    pub name: Seq<char>,
    pub user_name: Seq<char>,
    pub account: Seq<char>,
    pub partition_name: Seq<char>,
    pub num_nodes: i32,
    pub num_tasks: i32,
    pub cpus_per_task: i32,
    pub memory_mb: i64,
    pub submit_time: Instant,
    pub start_time: Instant,
    pub reservation: Seq<char>,
}

impl View for JobStart {
    type V = JobStartView;

    open spec fn view(&self) -> JobStartView {
        JobStartView {
            name: self.name.deep_view(),
            user_name: self.user_name.deep_view(),
            account: self.account.deep_view(),
            partition_name: self.partition_name.deep_view(),
            num_nodes: self.num_nodes.deep_view(),
            num_tasks: self.num_tasks.deep_view(),
            cpus_per_task: self.cpus_per_task.deep_view(),
            memory_mb: self.memory_mb.deep_view(),
            submit_time: self.submit_time.deep_view(),
            start_time: self.start_time.deep_view(),
            reservation: self.reservation.deep_view(),
        }
    }
}

impl DeepView for JobStart {
    type V = JobStartView;

    open spec fn deep_view(&self) -> JobStartView {
        self@
    }
}

impl Plain for JobStart {
    fn equals(&self, other: &Self) -> (same: bool) {
        self.name.equals(&other.name)
            && self.user_name.equals(&other.user_name)
            && self.account.equals(&other.account)
            && self.partition_name.equals(&other.partition_name)
            && self.num_nodes.equals(&other.num_nodes)
            && self.num_tasks.equals(&other.num_tasks)
            && self.cpus_per_task.equals(&other.cpus_per_task)
            && self.memory_mb.equals(&other.memory_mb)
            && self.submit_time.equals(&other.submit_time)
            && self.start_time.equals(&other.start_time)
            && self.reservation.equals(&other.reservation)
    }

    fn copy_of(&self) -> (out: Self) {
        JobStart {
            name: self.name.copy_of(),
            user_name: self.user_name.copy_of(),
            account: self.account.copy_of(),
            partition_name: self.partition_name.copy_of(),
            num_nodes: self.num_nodes.copy_of(),
            num_tasks: self.num_tasks.copy_of(),
            cpus_per_task: self.cpus_per_task.copy_of(),
            memory_mb: self.memory_mb.copy_of(),
            submit_time: self.submit_time.copy_of(),
            start_time: self.start_time.copy_of(),
            reservation: self.reservation.copy_of(),
        }
    }
}

/// How an execution ended.
#[derive(Clone, Debug)]
pub struct FinalizationReceipt {
    /// The identity of the finalization; none for one that is known by its execution alone.
    pub finalization_id: Option<u128>,
    pub state: String,
    pub exit_code: i32,
    pub end_time: Instant,
    pub exit_signal: i32,
    pub derived_exit_code: i32,
}

/// What a [`FinalizationReceipt`] holds.
#[verifier::ext_equal]
pub struct FinalizationReceiptView {
    pub finalization_id: Option<u128>,
    pub state: Seq<char>,
    pub exit_code: i32,
    pub end_time: Instant,
    pub exit_signal: i32,
    pub derived_exit_code: i32,
}

impl View for FinalizationReceipt {
    type V = FinalizationReceiptView;

    open spec fn view(&self) -> FinalizationReceiptView {
        FinalizationReceiptView {
            finalization_id: self.finalization_id.deep_view(),
            state: self.state.deep_view(),
            exit_code: self.exit_code.deep_view(),
            end_time: self.end_time.deep_view(),
            exit_signal: self.exit_signal.deep_view(),
            derived_exit_code: self.derived_exit_code.deep_view(),
        }
    }
}

impl DeepView for FinalizationReceipt {
    type V = FinalizationReceiptView;

    open spec fn deep_view(&self) -> FinalizationReceiptView {
        self@
    }
}

impl Plain for FinalizationReceipt {
    fn equals(&self, other: &Self) -> (same: bool) {
        self.finalization_id.equals(&other.finalization_id)
            && self.state.equals(&other.state)
            && self.exit_code.equals(&other.exit_code)
            && self.end_time.equals(&other.end_time)
            && self.exit_signal.equals(&other.exit_signal)
            && self.derived_exit_code.equals(&other.derived_exit_code)
    }

    fn copy_of(&self) -> (out: Self) {
        FinalizationReceipt {
            finalization_id: self.finalization_id.copy_of(),
            state: self.state.copy_of(),
            exit_code: self.exit_code.copy_of(),
            end_time: self.end_time.copy_of(),
            exit_signal: self.exit_signal.copy_of(),
            derived_exit_code: self.derived_exit_code.copy_of(),
        }
    }
}

/// What of an execution's start its usage depends on.
#[derive(Clone, Debug)]
pub struct RunMetadata {
    pub user_name: String,
    pub account: String,
    pub start_time: Instant,
    pub num_tasks: i32,
    pub cpus_per_task: i32,
}

/// What a [`RunMetadata`] holds.
#[verifier::ext_equal]
pub struct RunMetadataView {
    pub user_name: Seq<char>,
    pub account: Seq<char>,
    pub start_time: Instant,
    pub num_tasks: i32,
    pub cpus_per_task: i32,
}

impl View for RunMetadata {
    type V = RunMetadataView;

    open spec fn view(&self) -> RunMetadataView {
        RunMetadataView {
            user_name: self.user_name.deep_view(),
            account: self.account.deep_view(),
            start_time: self.start_time.deep_view(),
            num_tasks: self.num_tasks.deep_view(),
            cpus_per_task: self.cpus_per_task.deep_view(),
        }
    }
}

impl DeepView for RunMetadata {
    type V = RunMetadataView;

    open spec fn deep_view(&self) -> RunMetadataView {
        self@
    }
}

impl Plain for RunMetadata {
    fn equals(&self, other: &Self) -> (same: bool) {
        self.user_name.equals(&other.user_name)
            && self.account.equals(&other.account)
            && self.start_time.equals(&other.start_time)
            && self.num_tasks.equals(&other.num_tasks)
            && self.cpus_per_task.equals(&other.cpus_per_task)
    }

    fn copy_of(&self) -> (out: Self) {
        RunMetadata {
            user_name: self.user_name.copy_of(),
            account: self.account.copy_of(),
            start_time: self.start_time.copy_of(),
            num_tasks: self.num_tasks.copy_of(),
            cpus_per_task: self.cpus_per_task.copy_of(),
        }
    }
}

/// The record of one execution.
#[derive(Clone, Debug)]
pub struct JobRun {
    pub start: JobStart,
    /// Whether the start was recorded, or only what the end told of it.
    pub start_recorded: bool,
    pub finalization_id: Option<u128>,
    pub state: String,
    pub exit_code: i32,
    pub exit_signal: i32,
    pub derived_exit_code: i32,
    pub end_time: Option<Instant>,
}

/// What a [`JobRun`] holds.
#[verifier::ext_equal]
pub struct JobRunView {
    pub start: JobStartView,
    pub start_recorded: bool,
    pub finalization_id: Option<u128>,
    pub state: Seq<char>,
    pub exit_code: i32,
    pub exit_signal: i32,
    pub derived_exit_code: i32,
    pub end_time: Option<Instant>,
}

impl View for JobRun {
    type V = JobRunView;

    open spec fn view(&self) -> JobRunView {
        JobRunView {
            start: self.start.deep_view(),
            start_recorded: self.start_recorded.deep_view(),
            finalization_id: self.finalization_id.deep_view(),
            state: self.state.deep_view(),
            exit_code: self.exit_code.deep_view(),
            exit_signal: self.exit_signal.deep_view(),
            derived_exit_code: self.derived_exit_code.deep_view(),
            end_time: self.end_time.deep_view(),
        }
    }
}

impl DeepView for JobRun {
    type V = JobRunView;

    open spec fn deep_view(&self) -> JobRunView {
        self@
    }
}

impl Plain for JobRun {
    fn equals(&self, other: &Self) -> (same: bool) {
        self.start.equals(&other.start)
            && self.start_recorded.equals(&other.start_recorded)
            && self.finalization_id.equals(&other.finalization_id)
            && self.state.equals(&other.state)
            && self.exit_code.equals(&other.exit_code)
            && self.exit_signal.equals(&other.exit_signal)
            && self.derived_exit_code.equals(&other.derived_exit_code)
            && self.end_time.equals(&other.end_time)
    }

    fn copy_of(&self) -> (out: Self) {
        JobRun {
            start: self.start.copy_of(),
            start_recorded: self.start_recorded.copy_of(),
            finalization_id: self.finalization_id.copy_of(),
            state: self.state.copy_of(),
            exit_code: self.exit_code.copy_of(),
            exit_signal: self.exit_signal.copy_of(),
            derived_exit_code: self.derived_exit_code.copy_of(),
            end_time: self.end_time.copy_of(),
        }
    }
}

/// The latest execution of a job.
#[derive(Clone, Debug)]
pub struct JobRow {
    pub submission_generation: u128,
    pub run_attempt: i32,
    pub name: String,
    pub user_name: String,
    pub account: String,
    pub partition_name: String,
    pub num_nodes: i32,
    pub num_tasks: i32,
    pub cpus_per_task: i32,
    pub memory_mb: i64,
    pub submit_time: Instant,
    pub start_time: Option<Instant>,
    pub end_time: Option<Instant>,
    pub reservation: String,
    pub state: String,
    pub exit_code: i32,
    pub exit_signal: i32,
    pub derived_exit_code: i32,
}

/// What a [`JobRow`] holds.
#[verifier::ext_equal]
pub struct JobRowView {
    pub submission_generation: u128,
    pub run_attempt: i32,
    pub name: Seq<char>,
    pub user_name: Seq<char>,
    pub account: Seq<char>,
    pub partition_name: Seq<char>,
    pub num_nodes: i32,
    pub num_tasks: i32,
    pub cpus_per_task: i32,
    pub memory_mb: i64,
    pub submit_time: Instant,
    pub start_time: Option<Instant>,
    pub end_time: Option<Instant>,
    pub reservation: Seq<char>,
    pub state: Seq<char>,
    pub exit_code: i32,
    pub exit_signal: i32,
    pub derived_exit_code: i32,
}

impl View for JobRow {
    type V = JobRowView;

    open spec fn view(&self) -> JobRowView {
        JobRowView {
            submission_generation: self.submission_generation.deep_view(),
            run_attempt: self.run_attempt.deep_view(),
            name: self.name.deep_view(),
            user_name: self.user_name.deep_view(),
            account: self.account.deep_view(),
            partition_name: self.partition_name.deep_view(),
            num_nodes: self.num_nodes.deep_view(),
            num_tasks: self.num_tasks.deep_view(),
            cpus_per_task: self.cpus_per_task.deep_view(),
            memory_mb: self.memory_mb.deep_view(),
            submit_time: self.submit_time.deep_view(),
            start_time: self.start_time.deep_view(),
            end_time: self.end_time.deep_view(),
            reservation: self.reservation.deep_view(),
            state: self.state.deep_view(),
            exit_code: self.exit_code.deep_view(),
            exit_signal: self.exit_signal.deep_view(),
            derived_exit_code: self.derived_exit_code.deep_view(),
        }
    }
}

impl DeepView for JobRow {
    type V = JobRowView;

    open spec fn deep_view(&self) -> JobRowView {
        self@
    }
}

impl Plain for JobRow {
    fn equals(&self, other: &Self) -> (same: bool) {
        self.submission_generation.equals(&other.submission_generation)
            && self.run_attempt.equals(&other.run_attempt)
            && self.name.equals(&other.name)
            && self.user_name.equals(&other.user_name)
            && self.account.equals(&other.account)
            && self.partition_name.equals(&other.partition_name)
            && self.num_nodes.equals(&other.num_nodes)
            && self.num_tasks.equals(&other.num_tasks)
            && self.cpus_per_task.equals(&other.cpus_per_task)
            && self.memory_mb.equals(&other.memory_mb)
            && self.submit_time.equals(&other.submit_time)
            && self.start_time.equals(&other.start_time)
            && self.end_time.equals(&other.end_time)
            && self.reservation.equals(&other.reservation)
            && self.state.equals(&other.state)
            && self.exit_code.equals(&other.exit_code)
            && self.exit_signal.equals(&other.exit_signal)
            && self.derived_exit_code.equals(&other.derived_exit_code)
    }

    fn copy_of(&self) -> (out: Self) {
        JobRow {
            submission_generation: self.submission_generation.copy_of(),
            run_attempt: self.run_attempt.copy_of(),
            name: self.name.copy_of(),
            user_name: self.user_name.copy_of(),
            account: self.account.copy_of(),
            partition_name: self.partition_name.copy_of(),
            num_nodes: self.num_nodes.copy_of(),
            num_tasks: self.num_tasks.copy_of(),
            cpus_per_task: self.cpus_per_task.copy_of(),
            memory_mb: self.memory_mb.copy_of(),
            submit_time: self.submit_time.copy_of(),
            start_time: self.start_time.copy_of(),
            end_time: self.end_time.copy_of(),
            reservation: self.reservation.copy_of(),
            state: self.state.copy_of(),
            exit_code: self.exit_code.copy_of(),
            exit_signal: self.exit_signal.copy_of(),
            derived_exit_code: self.derived_exit_code.copy_of(),
        }
    }
}

/// What an execution adds to the usage of an account in one hour.
#[derive(Clone, Debug)]
pub struct Contribution {
    pub finalization_id: Option<u128>,
    pub user_name: String,
    pub account: String,
    pub period_start: Instant,
    pub period_end: Instant,
    pub cpu_seconds: i64,
}

/// What a [`Contribution`] holds.
#[verifier::ext_equal]
pub struct ContributionView {
    pub finalization_id: Option<u128>,
    pub user_name: Seq<char>,
    pub account: Seq<char>,
    pub period_start: Instant,
    pub period_end: Instant,
    pub cpu_seconds: i64,
}

impl View for Contribution {
    type V = ContributionView;

    open spec fn view(&self) -> ContributionView {
        ContributionView {
            finalization_id: self.finalization_id.deep_view(),
            user_name: self.user_name.deep_view(),
            account: self.account.deep_view(),
            period_start: self.period_start.deep_view(),
            period_end: self.period_end.deep_view(),
            cpu_seconds: self.cpu_seconds.deep_view(),
        }
    }
}

impl DeepView for Contribution {
    type V = ContributionView;

    open spec fn deep_view(&self) -> ContributionView {
        self@
    }
}

impl Plain for Contribution {
    fn equals(&self, other: &Self) -> (same: bool) {
        self.finalization_id.equals(&other.finalization_id)
            && self.user_name.equals(&other.user_name)
            && self.account.equals(&other.account)
            && self.period_start.equals(&other.period_start)
            && self.period_end.equals(&other.period_end)
            && self.cpu_seconds.equals(&other.cpu_seconds)
    }

    fn copy_of(&self) -> (out: Self) {
        Contribution {
            finalization_id: self.finalization_id.copy_of(),
            user_name: self.user_name.copy_of(),
            account: self.account.copy_of(),
            period_start: self.period_start.copy_of(),
            period_end: self.period_end.copy_of(),
            cpu_seconds: self.cpu_seconds.copy_of(),
        }
    }
}

/// The usage of an account in one hour.
#[derive(Clone, Debug)]
pub struct UsageRow {
    pub period_end: Instant,
    pub cpu_seconds: i64,
    pub job_count: i32,
}

/// What an [`UsageRow`] holds.
#[verifier::ext_equal]
pub struct UsageRowView {
    pub period_end: Instant,
    pub cpu_seconds: i64,
    pub job_count: i32,
}

impl View for UsageRow {
    type V = UsageRowView;

    open spec fn view(&self) -> UsageRowView {
        UsageRowView {
            period_end: self.period_end.deep_view(),
            cpu_seconds: self.cpu_seconds.deep_view(),
            job_count: self.job_count.deep_view(),
        }
    }
}

impl DeepView for UsageRow {
    type V = UsageRowView;

    open spec fn deep_view(&self) -> UsageRowView {
        self@
    }
}

impl Plain for UsageRow {
    fn equals(&self, other: &Self) -> (same: bool) {
        self.period_end.equals(&other.period_end)
            && self.cpu_seconds.equals(&other.cpu_seconds)
            && self.job_count.equals(&other.job_count)
    }

    fn copy_of(&self) -> (out: Self) {
        UsageRow {
            period_end: self.period_end.copy_of(),
            cpu_seconds: self.cpu_seconds.copy_of(),
            job_count: self.job_count.copy_of(),
        }
    }
}

/// What the ledger says of a job, for a comparison with the controller.
#[derive(Clone, Debug)]
pub struct AccountingRowState {
    pub submission_generation: u128,
    pub run_attempt: u32,
    pub state: String,
    /// Whether the start of the job was never recorded.
    pub needs_start_backfill: bool,
}

/// What an [`AccountingRowState`] holds.
#[verifier::ext_equal]
pub struct AccountingRowStateView {
    pub submission_generation: u128,
    pub run_attempt: u32,
    pub state: Seq<char>,
    pub needs_start_backfill: bool,
}

impl View for AccountingRowState {
    type V = AccountingRowStateView;

    open spec fn view(&self) -> AccountingRowStateView {
        AccountingRowStateView {
            submission_generation: self.submission_generation.deep_view(),
            run_attempt: self.run_attempt.deep_view(),
            state: self.state.deep_view(),
            needs_start_backfill: self.needs_start_backfill.deep_view(),
        }
    }
}

impl DeepView for AccountingRowState {
    type V = AccountingRowStateView;

    open spec fn deep_view(&self) -> AccountingRowStateView {
        self@
    }
}

impl Plain for AccountingRowState {
    fn equals(&self, other: &Self) -> (same: bool) {
        self.submission_generation.equals(&other.submission_generation)
            && self.run_attempt.equals(&other.run_attempt)
            && self.state.equals(&other.state)
            && self.needs_start_backfill.equals(&other.needs_start_backfill)
    }

    fn copy_of(&self) -> (out: Self) {
        AccountingRowState {
            submission_generation: self.submission_generation.copy_of(),
            run_attempt: self.run_attempt.copy_of(),
            state: self.state.copy_of(),
            needs_start_backfill: self.needs_start_backfill.copy_of(),
        }
    }
}

/// The part of a job's row that such a comparison reads.
#[derive(Clone, Debug)]
pub struct AccountingRow {
    pub job_id: i32,
    pub submission_generation: u128,
    pub run_attempt: i32,
    pub state: String,
    pub user_name: String,
    pub start_time: Option<Instant>,
}

/// What an [`AccountingRow`] holds.
#[verifier::ext_equal]
pub struct AccountingRowView {
    pub job_id: i32,
    pub submission_generation: u128,
    pub run_attempt: i32,
    pub state: Seq<char>,
    pub user_name: Seq<char>,
    pub start_time: Option<Instant>,
}

impl View for AccountingRow {
    type V = AccountingRowView;

    open spec fn view(&self) -> AccountingRowView {
        AccountingRowView {
            job_id: self.job_id.deep_view(),
            submission_generation: self.submission_generation.deep_view(),
            run_attempt: self.run_attempt.deep_view(),
            state: self.state.deep_view(),
            user_name: self.user_name.deep_view(),
            start_time: self.start_time.deep_view(),
        }
    }
}

impl DeepView for AccountingRow {
    type V = AccountingRowView;

    open spec fn deep_view(&self) -> AccountingRowView {
        self@
    }
}

impl Plain for AccountingRow {
    fn equals(&self, other: &Self) -> (same: bool) {
        self.job_id.equals(&other.job_id)
            && self.submission_generation.equals(&other.submission_generation)
            && self.run_attempt.equals(&other.run_attempt)
            && self.state.equals(&other.state)
            && self.user_name.equals(&other.user_name)
            && self.start_time.equals(&other.start_time)
    }

    fn copy_of(&self) -> (out: Self) {
        AccountingRow {
            job_id: self.job_id.copy_of(),
            submission_generation: self.submission_generation.copy_of(),
            run_attempt: self.run_attempt.copy_of(),
            state: self.state.copy_of(),
            user_name: self.user_name.copy_of(),
            start_time: self.start_time.copy_of(),
        }
    }
}

/// What is said of an execution that conflicts with its record.
pub open spec fn conflict_text(what: Seq<char>, key: RunKeyView) -> Seq<char> {
    what + " for job "@ + signed_decimal(key.job_id as int) + " generation "@ + uuid_text(
        key.submission_generation,
    ) + " attempt "@ + signed_decimal(key.run_attempt as int)
}

fn conflict(what: &str, key: &RunKey) -> (out: String)
    ensures
        out@ == conflict_text(what@, key@),
{
    let job = i64_text(key.job_id as i64);
    let generation = to_text(key.submission_generation);
    let attempt = i64_text(key.run_attempt as i64);
    let head = join3(what, " for job ", job.as_str());
    let middle = join3(head.as_str(), " generation ", generation.as_str());
    join3(middle.as_str(), " attempt ", attempt.as_str())
}

/// The number of an attempt, as the ledger holds it.
pub fn attempt_number(run_attempt: u32) -> (out: Result<i32, String>)
    ensures
        match out {
            Ok(n) => n == run_attempt,
            Err(message) => run_attempt > i32::MAX && message@
                == "out of range integral type conversion attempted"@,
        },
{
    if run_attempt <= 0x7fff_ffff {
        Ok(run_attempt as i32)
    } else {
        Err("out of range integral type conversion attempted".to_owned())
    }
}

/// Whether two points agree as far as the ledger can tell: it keeps microseconds.
pub open spec fn same_micros(a: Instant, b: Instant) -> bool {
    a.in_micros() == b.in_micros()
}

fn agree(a: Instant, b: Instant) -> (yes: bool)
    requires
        a.wf(),
        b.wf(),
    ensures
        yes == same_micros(a, b),
{
    timestamp_micros(a) == timestamp_micros(b)
}

impl JobStartView {
    /// Whether its points in time have calendar dates.
    pub open spec fn wf(self) -> bool {
        self.submit_time.wf() && self.start_time.wf()
    }

    /// What of the start the usage depends on.
    pub open spec fn metadata(self) -> RunMetadataView {
        RunMetadataView {
            user_name: self.user_name,
            account: self.account,
            start_time: self.start_time,
            num_tasks: self.num_tasks,
            cpus_per_task: self.cpus_per_task,
        }
    }

    /// Whether this recorded start is the start `other`.
    pub open spec fn agrees(self, other: JobStartView) -> bool {
        &&& self.name == other.name
        &&& self.partition_name == other.partition_name
        &&& self.num_nodes == other.num_nodes
        &&& self.memory_mb == other.memory_mb
        &&& same_micros(self.submit_time, other.submit_time)
        &&& self.reservation == other.reservation
        &&& self.metadata().agrees(other.metadata())
    }
}

impl RunMetadataView {
    /// Whether this recorded metadata is the metadata `other`.
    pub open spec fn agrees(self, other: RunMetadataView) -> bool {
        &&& self.user_name == other.user_name
        &&& self.account == other.account
        &&& same_micros(self.start_time, other.start_time)
        &&& self.num_tasks == other.num_tasks
        &&& self.cpus_per_task == other.cpus_per_task
    }
}

fn metadata_agrees(start: &JobStart, other: &RunMetadata) -> (yes: bool)
    requires
        start@.wf(),
        other@.start_time.wf(),
    ensures
        yes == start@.metadata().agrees(other@),
{
    start.user_name == other.user_name && start.account == other.account && agree(
        start.start_time,
        other.start_time,
    ) && start.num_tasks == other.num_tasks && start.cpus_per_task == other.cpus_per_task
}

fn metadata_of(start: &JobStart) -> (out: RunMetadata)
    ensures
        out@ == start@.metadata(),
{
    RunMetadata {
        user_name: start.user_name.clone(),
        account: start.account.clone(),
        start_time: start.start_time,
        num_tasks: start.num_tasks,
        cpus_per_task: start.cpus_per_task,
    }
}

fn start_agrees(start: &JobStart, other: &JobStart) -> (yes: bool)
    requires
        start@.wf(),
        other@.wf(),
    ensures
        yes == start@.agrees(other@),
{
    start.name == other.name && start.partition_name == other.partition_name && start.num_nodes
        == other.num_nodes && start.memory_mb == other.memory_mb && agree(
        start.submit_time,
        other.submit_time,
    ) && start.reservation == other.reservation && metadata_agrees(start, &metadata_of(other))
}

impl FinalizationReceiptView {
    /// Whether a recorded end is the end `candidate`. A candidate without an
    /// identity is known by its execution alone.
    pub open spec fn accepts(self, candidate: FinalizationReceiptView) -> bool {
        &&& candidate.finalization_id is None || self.finalization_id == candidate.finalization_id
        &&& self.state == candidate.state
        &&& self.exit_code == candidate.exit_code
        &&& same_micros(self.end_time, candidate.end_time)
        &&& self.exit_signal == candidate.exit_signal
        &&& self.derived_exit_code == candidate.derived_exit_code
    }
}

impl FinalizationReceipt {
    /// Whether this recorded end is the end `candidate`.
    pub fn accepts_replay(&self, candidate: &FinalizationReceipt) -> (yes: bool)
        requires
            self.end_time.wf(),
            candidate.end_time.wf(),
        ensures
            yes == self@.accepts(candidate@),
    {
        (candidate.finalization_id.is_none() || self.finalization_id.equals(
            &candidate.finalization_id,
        )) && self.state == candidate.state && self.exit_code == candidate.exit_code && agree(
            self.end_time,
            candidate.end_time,
        ) && self.exit_signal == candidate.exit_signal && self.derived_exit_code
            == candidate.derived_exit_code
    }
}

impl JobRunView {
    /// Whether its points in time have calendar dates.
    pub open spec fn wf(self) -> bool {
        self.start.wf() && (self.end_time matches Some(end) ==> end.wf())
    }

    /// How the execution ended, where it has.
    pub open spec fn receipt(self) -> Option<FinalizationReceiptView> {
        match self.end_time {
            None => None,
            Some(end_time) => Some(
                FinalizationReceiptView {
                    finalization_id: self.finalization_id,
                    state: self.state,
                    exit_code: self.exit_code,
                    end_time,
                    exit_signal: self.exit_signal,
                    derived_exit_code: self.derived_exit_code,
                },
            ),
        }
    }

    /// The record with this end.
    pub open spec fn ended(self, receipt: FinalizationReceiptView) -> JobRunView {
        JobRunView {
            finalization_id: receipt.finalization_id,
            state: receipt.state,
            exit_code: receipt.exit_code,
            exit_signal: receipt.exit_signal,
            derived_exit_code: receipt.derived_exit_code,
            end_time: Some(receipt.end_time),
            ..self
        }
    }
}

/// The record of an execution that has started.
pub open spec fn started_run(start: JobStartView) -> JobRunView {
    JobRunView {
        start,
        start_recorded: true,
        finalization_id: None,
        state: "RUNNING"@,
        exit_code: 0,
        exit_signal: 0,
        derived_exit_code: 0,
        end_time: None,
    }
}

/// What to do to the record of an execution.
#[derive(Debug)]
pub enum RunWrite {
    /// Nothing.
    Keep,
    /// Put this in its place.
    Replace(JobRun),
    /// Add it.
    Insert(JobRun),
}

/// What a [`RunWrite`] holds.
pub enum RunWriteView {
    Keep,
    Replace(JobRunView),
    Insert(JobRunView),
}

impl View for RunWrite {
    type V = RunWriteView;

    open spec fn view(&self) -> RunWriteView {
        match self {
            RunWrite::Keep => RunWriteView::Keep,
            RunWrite::Replace(run) => RunWriteView::Replace(run@),
            RunWrite::Insert(run) => RunWriteView::Insert(run@),
        }
    }
}

/// The record after a write.
pub open spec fn run_after(existing: Option<JobRunView>, write: RunWriteView) -> Option<JobRunView> {
    match write {
        RunWriteView::Keep => existing,
        RunWriteView::Replace(run) => Some(run),
        RunWriteView::Insert(run) => Some(run),
    }
}

/// The value of an outcome whose error is a message.
pub open spec fn recorded<T: View>(outcome: Result<T, String>) -> Result<T::V, Seq<char>> {
    match outcome {
        Ok(value) => Ok(value@),
        Err(message) => Err(message@),
    }
}

/// What to do to the record of an execution that starts. A start that is recorded
/// must be the same; an end that came first stays, and must not contradict it.
pub open spec fn start_recorded(
    key: RunKeyView,
    start: JobStartView,
    existing: Option<JobRunView>,
) -> Result<RunWriteView, Seq<char>> {
    match existing {
        None => Ok(RunWriteView::Insert(started_run(start))),
        Some(run) => if run.start_recorded {
            if run.start.agrees(start) {
                Ok(RunWriteView::Keep)
            } else {
                Err(conflict_text("conflicting accounting start"@, key))
            }
        } else if run.start.metadata().agrees(start.metadata()) {
            Ok(RunWriteView::Replace(JobRunView { start, start_recorded: true, ..run }))
        } else {
            Err(conflict_text("conflicting late accounting start"@, key))
        },
    }
}

/// What to do to the record of an execution that starts.
pub fn record_job_start_exact(key: &RunKey, start: &JobStart, existing: &Option<JobRun>) -> (out:
    Result<RunWrite, String>)
    requires
        start@.wf(),
        existing matches Some(run) ==> run@.wf(),
    ensures
        recorded(out) == start_recorded(key@, start@, existing.deep_view()),
{
    match existing {
        None => {
            let run = JobRun {
                start: start.copy_of(),
                start_recorded: true,
                finalization_id: None,
                state: "RUNNING".to_owned(),
                exit_code: 0,
                exit_signal: 0,
                derived_exit_code: 0,
                end_time: None,
            };
            Ok(RunWrite::Insert(run))
        },
        Some(run) => {
            if run.start_recorded {
                if start_agrees(&run.start, start) {
                    Ok(RunWrite::Keep)
                } else {
                    Err(conflict("conflicting accounting start", key))
                }
            } else if metadata_agrees(&run.start, &metadata_of(start)) {
                let mut next = run.copy_of();
                next.start = start.copy_of();
                next.start_recorded = true;
                proof {
                    assert(next@ =~= (JobRunView { start: start@, start_recorded: true, ..run@ }));
                }
                Ok(RunWrite::Replace(next))
            } else {
                Err(conflict("conflicting late accounting start", key))
            }
        },
    }
}

/// Whether a row is about this very execution.
pub open spec fn row_is(row: JobRowView, key: RunKeyView) -> bool {
    row.submission_generation == key.submission_generation && row.run_attempt == key.run_attempt
}

/// The row of an execution that has started.
pub open spec fn started_row(key: RunKeyView, start: JobStartView) -> JobRowView {
    JobRowView {
        submission_generation: key.submission_generation,
        run_attempt: key.run_attempt,
        name: start.name,
        user_name: start.user_name,
        account: start.account,
        partition_name: start.partition_name,
        num_nodes: start.num_nodes,
        num_tasks: start.num_tasks,
        cpus_per_task: start.cpus_per_task,
        memory_mb: start.memory_mb,
        submit_time: start.submit_time,
        start_time: Some(start.start_time),
        end_time: None,
        reservation: start.reservation,
        state: "RUNNING"@,
        exit_code: 0,
        exit_signal: 0,
        derived_exit_code: 0,
    }
}

/// A row with the end that another has.
pub open spec fn with_end_of(row: JobRowView, other: JobRowView) -> JobRowView {
    JobRowView {
        end_time: other.end_time,
        state: other.state,
        exit_code: other.exit_code,
        exit_signal: other.exit_signal,
        derived_exit_code: other.derived_exit_code,
        ..row
    }
}

/// Whether a row gives way to the start of an execution: it is of an earlier
/// submission, or of the same one and no later attempt.
pub open spec fn row_gives_way(current: JobRowView, key: RunKeyView, start: JobStartView) -> bool {
    ||| current.submit_time.in_micros() < start.submit_time.in_micros()
    ||| current.submission_generation == key.submission_generation && current.run_attempt
        <= key.run_attempt
}

/// The row of a job after an execution started; none where it stays. An end that
/// came first stays with its execution.
pub open spec fn start_projected(
    current: Option<JobRowView>,
    key: RunKeyView,
    start: JobStartView,
) -> Option<JobRowView> {
    match current {
        None => Some(started_row(key, start)),
        Some(row) => if !row_gives_way(row, key, start) {
            None
        } else if row_is(row, key) && row.end_time is Some {
            Some(with_end_of(started_row(key, start), row))
        } else {
            Some(started_row(key, start))
        },
    }
}

fn row_of_start(key: &RunKey, start: &JobStart) -> (out: JobRow)
    ensures
        out@ == started_row(key@, start@),
{
    JobRow {
        submission_generation: key.submission_generation,
        run_attempt: key.run_attempt,
        name: start.name.clone(),
        user_name: start.user_name.clone(),
        account: start.account.clone(),
        partition_name: start.partition_name.clone(),
        num_nodes: start.num_nodes,
        num_tasks: start.num_tasks,
        cpus_per_task: start.cpus_per_task,
        memory_mb: start.memory_mb,
        submit_time: start.submit_time,
        start_time: Some(start.start_time),
        end_time: None,
        reservation: start.reservation.clone(),
        state: "RUNNING".to_owned(),
        exit_code: 0,
        exit_signal: 0,
        derived_exit_code: 0,
    }
}

/// The row of a job after an execution started; none where it stays.
pub fn project_start(current: &Option<JobRow>, key: &RunKey, start: &JobStart) -> (out: Option<
    JobRow,
>)
    requires
        start@.wf(),
        current matches Some(row) ==> row.submit_time.wf(),
    ensures
        out.deep_view() == start_projected(current.deep_view(), key@, start@),
{
    let mut row = row_of_start(key, start);
    match current {
        None => Some(row),
        Some(current) => {
            let gives_way = timestamp_micros(current.submit_time) < timestamp_micros(
                start.submit_time,
            ) || (current.submission_generation == key.submission_generation && current.run_attempt
                <= key.run_attempt);
            if !gives_way {
                return None;
            }
            if current.submission_generation == key.submission_generation && current.run_attempt
                == key.run_attempt && current.end_time.is_some() {
                row.end_time = current.end_time;
                row.state = current.state.clone();
                row.exit_code = current.exit_code;
                row.exit_signal = current.exit_signal;
                row.derived_exit_code = current.derived_exit_code;
                proof {
                    assert(row@ =~= with_end_of(started_row(key@, start@), current@));
                }
            }
            Some(row)
        },
    }
}

/// What an execution adds to the CPU seconds of its account. An end before the
/// start counts as none.
pub open spec fn cpu_seconds_of(meta: RunMetadataView, end_time: Instant) -> int {
    busy_seconds(meta.start_time, end_time) * meta.num_tasks * meta.cpus_per_task
}

/// The seconds from a start to an end; none where the end comes first.
pub open spec fn busy_seconds(start_time: Instant, end_time: Instant) -> int {
    if seconds_between(end_time, start_time) > 0 {
        seconds_between(end_time, start_time)
    } else {
        0
    }
}

/// Whether the usage of an execution can be written down: its CPU seconds fit,
/// and its hour ends at a calendar date.
pub open spec fn usage_fits(meta: RunMetadataView, end_time: Instant) -> bool {
    &&& meta.start_time.wf()
    &&& end_time.wf()
    &&& meta.start_time.hour_start() + 3_600 <= MAX_SECS
    &&& i64::MIN <= busy_seconds(meta.start_time, end_time) * meta.num_tasks <= i64::MAX
    &&& i64::MIN <= cpu_seconds_of(meta, end_time) <= i64::MAX
}

/// What an execution adds to the usage of its account, in the hour in which it
/// started.
pub open spec fn contribution_of(
    meta: RunMetadataView,
    finalization_id: Option<u128>,
    end_time: Instant,
) -> ContributionView {
    ContributionView {
        finalization_id,
        user_name: meta.user_name,
        account: meta.account,
        period_start: Instant { secs: meta.start_time.hour_start() as i64, nanos: 0 },
        period_end: Instant { secs: (meta.start_time.hour_start() + 3_600) as i64, nanos: 0 },
        cpu_seconds: cpu_seconds_of(meta, end_time) as i64,
    }
}

fn contribute(meta: &RunMetadata, finalization_id: Option<u128>, end_time: Instant) -> (out:
    Contribution)
    requires
        usage_fits(meta@, end_time),
    ensures
        out@ == contribution_of(meta@, finalization_id, end_time),
{
    let between: i64 = signed_seconds_between(end_time, meta.start_time);
    let duration: i64 = if between > 0 {
        between
    } else {
        0
    };
    let task_seconds: i64 = duration * (meta.num_tasks as i64);
    let cpu_seconds: i64 = task_seconds * (meta.cpus_per_task as i64);
    let begin: i64 = start_of_hour(meta.start_time);
    proof {
        crate::clock::law_hour_holds_its_points(meta.start_time);
    }
    Contribution {
        finalization_id,
        user_name: meta.user_name.clone(),
        account: meta.account.clone(),
        period_start: Instant { secs: begin, nanos: 0 },
        period_end: Instant { secs: begin + 3_600, nanos: 0 },
        cpu_seconds,
    }
}

/// Whether a contribution that was made is the contribution `due`.
pub open spec fn contribution_agrees(made: ContributionView, due: ContributionView) -> bool {
    &&& due.finalization_id is None || made.finalization_id == due.finalization_id
    &&& made.user_name == due.user_name
    &&& made.account == due.account
    &&& made.period_start == due.period_start
    &&& made.period_end == due.period_end
    &&& made.cpu_seconds == due.cpu_seconds
}

fn agrees_with(made: &Contribution, due: &Contribution) -> (yes: bool)
    ensures
        yes == contribution_agrees(made@, due@),
{
    (due.finalization_id.is_none() || made.finalization_id.equals(&due.finalization_id))
        && made.user_name == due.user_name && made.account == due.account
        && made.period_start.equals(&due.period_start) && made.period_end.equals(&due.period_end)
        && made.cpu_seconds == due.cpu_seconds
}

/// The record of an execution whose end comes before its start.
pub open spec fn ended_run(meta: RunMetadataView, receipt: FinalizationReceiptView) -> JobRunView {
    JobRunView {
        start: JobStartView {
            name: Seq::empty(),
            user_name: meta.user_name,
            account: meta.account,
            partition_name: Seq::empty(),
            num_nodes: 1,
            num_tasks: meta.num_tasks,
            cpus_per_task: meta.cpus_per_task,
            memory_mb: 0,
            submit_time: meta.start_time,
            start_time: meta.start_time,
            reservation: Seq::empty(),
        },
        start_recorded: false,
        finalization_id: receipt.finalization_id,
        state: receipt.state,
        exit_code: receipt.exit_code,
        exit_signal: receipt.exit_signal,
        derived_exit_code: receipt.derived_exit_code,
        end_time: Some(receipt.end_time),
    }
}

/// What to do to the record of an execution that ends. An end that is recorded
/// must be the same.
pub open spec fn end_recorded(
    key: RunKeyView,
    meta: RunMetadataView,
    receipt: FinalizationReceiptView,
    existing: Option<JobRunView>,
) -> Result<RunWriteView, Seq<char>> {
    match existing {
        None => Ok(RunWriteView::Insert(ended_run(meta, receipt))),
        Some(run) => if !run.start.metadata().agrees(meta) {
            Err(conflict_text("conflicting accounting metadata"@, key))
        } else {
            match run.receipt() {
                Some(stored) => if stored.accepts(receipt) {
                    Ok(RunWriteView::Keep)
                } else {
                    Err(conflict_text("conflicting accounting finalization"@, key))
                },
                None => Ok(RunWriteView::Replace(run.ended(receipt))),
            }
        },
    }
}

fn record_end(
    key: &RunKey,
    meta: &RunMetadata,
    receipt: &FinalizationReceipt,
    existing: &Option<JobRun>,
) -> (out: Result<RunWrite, String>)
    requires
        meta@.start_time.wf(),
        receipt.end_time.wf(),
        existing matches Some(run) ==> run@.wf(),
    ensures
        recorded(out) == end_recorded(key@, meta@, receipt@, existing.deep_view()),
{
    match existing {
        None => {
            let run = JobRun {
                start: JobStart {
                    name: String::new(),
                    user_name: meta.user_name.clone(),
                    account: meta.account.clone(),
                    partition_name: String::new(),
                    num_nodes: 1,
                    num_tasks: meta.num_tasks,
                    cpus_per_task: meta.cpus_per_task,
                    memory_mb: 0,
                    submit_time: meta.start_time,
                    start_time: meta.start_time,
                    reservation: String::new(),
                },
                start_recorded: false,
                finalization_id: receipt.finalization_id,
                state: receipt.state.clone(),
                exit_code: receipt.exit_code,
                exit_signal: receipt.exit_signal,
                derived_exit_code: receipt.derived_exit_code,
                end_time: Some(receipt.end_time),
            };
            Ok(RunWrite::Insert(run))
        },
        Some(run) => {
            if !metadata_agrees(&run.start, meta) {
                return Err(conflict("conflicting accounting metadata", key));
            }
            match run.end_time {
                Some(end_time) => {
                    let stored = FinalizationReceipt {
                        finalization_id: run.finalization_id,
                        state: run.state.clone(),
                        exit_code: run.exit_code,
                        end_time,
                        exit_signal: run.exit_signal,
                        derived_exit_code: run.derived_exit_code,
                    };
                    if stored.accepts_replay(receipt) {
                        Ok(RunWrite::Keep)
                    } else {
                        Err(conflict("conflicting accounting finalization", key))
                    }
                },
                None => {
                    let mut next = run.copy_of();
                    next.finalization_id = receipt.finalization_id;
                    next.state = receipt.state.clone();
                    next.exit_code = receipt.exit_code;
                    next.exit_signal = receipt.exit_signal;
                    next.derived_exit_code = receipt.derived_exit_code;
                    next.end_time = Some(receipt.end_time);
                    proof {
                        assert(next@ =~= run@.ended(receipt@));
                    }
                    Ok(RunWrite::Replace(next))
                },
            }
        },
    }
}

/// What to write for an execution that ends.
#[derive(Debug)]
pub struct FinalizationWrites {
    pub run: RunWrite,
    /// The contribution to claim and add to the usage; none where it was claimed
    /// before.
    pub claim: Option<Contribution>,
}

/// What a [`FinalizationWrites`] holds.
#[verifier::ext_equal]
pub struct FinalizationWritesView {
    pub run: RunWriteView,
    pub claim: Option<ContributionView>,
}

impl View for FinalizationWrites {
    type V = FinalizationWritesView;

    open spec fn view(&self) -> FinalizationWritesView {
        FinalizationWritesView { run: self.run@, claim: self.claim.deep_view() }
    }
}

/// What to write for an execution that ends, where `owner` is the execution that
/// has the identity of the finalization and `claimed` is the contribution that
/// the execution made before.
pub open spec fn finalized(
    key: RunKeyView,
    meta: RunMetadataView,
    receipt: FinalizationReceiptView,
    owner: Option<RunKeyView>,
    existing: Option<JobRunView>,
    claimed: Option<ContributionView>,
) -> Result<FinalizationWritesView, Seq<char>> {
    if receipt.finalization_id is Some && owner is Some && owner != Some(key) {
        Err(
            "finalization UUID "@ + uuid_text(receipt.finalization_id->0)
                + " is already owned by another execution"@,
        )
    } else {
        match end_recorded(key, meta, receipt, existing) {
            Err(message) => Err(message),
            Ok(run) => {
                let due = contribution_of(meta, receipt.finalization_id, receipt.end_time);
                match claimed {
                    None => Ok(FinalizationWritesView { run, claim: Some(due) }),
                    Some(made) => if contribution_agrees(made, due) {
                        Ok(FinalizationWritesView { run, claim: None })
                    } else {
                        Err(conflict_text("conflicting usage contribution"@, key))
                    },
                }
            },
        }
    }
}

/// Whether the end of an execution is accepted, so that its usage is due.
pub open spec fn usage_is_due(
    key: RunKeyView,
    meta: RunMetadataView,
    receipt: FinalizationReceiptView,
    owner: Option<RunKeyView>,
    existing: Option<JobRunView>,
) -> bool {
    &&& receipt.finalization_id is None || owner is None || owner == Some(key)
    &&& end_recorded(key, meta, receipt, existing) is Ok
}

/// What to write for an execution that ends, where `owner` is the execution that
/// has the identity of the finalization and `claimed` is the contribution that
/// the execution made before.
pub fn record_job_finalization(
    key: &RunKey,
    meta: &RunMetadata,
    receipt: &FinalizationReceipt,
    owner: &Option<RunKey>,
    existing: &Option<JobRun>,
    claimed: &Option<Contribution>,
) -> (out: Result<FinalizationWrites, String>)
    requires
        meta.start_time.wf(),
        receipt.end_time.wf(),
        existing matches Some(run) ==> run@.wf(),
        usage_is_due(key@, meta@, receipt@, owner.deep_view(), existing.deep_view())
            ==> usage_fits(meta@, receipt.end_time),
    ensures
        recorded(out) == finalized(
            key@,
            meta@,
            receipt@,
            owner.deep_view(),
            existing.deep_view(),
            claimed.deep_view(),
        ),
{
    if let (Some(id), Some(owner)) = (receipt.finalization_id, owner) {
        if !owner.equals(key) {
            let text = to_text(id);
            return Err(
                join3(
                    "finalization UUID ",
                    text.as_str(),
                    " is already owned by another execution",
                ),
            );
        }
    }
    let run = match record_end(key, meta, receipt, existing) {
        Err(message) => return Err(message),
        Ok(run) => run,
    };
    let due = contribute(meta, receipt.finalization_id, receipt.end_time);
    match claimed {
        None => Ok(FinalizationWrites { run, claim: Some(due) }),
        Some(made) => {
            if agrees_with(made, &due) {
                Ok(FinalizationWrites { run, claim: None })
            } else {
                Err(conflict("conflicting usage contribution", key))
            }
        },
    }
}

/// The usage of an account after a contribution; none where it does not fit.
pub open spec fn usage_added(current: Option<UsageRowView>, added: ContributionView) -> Option<
    UsageRowView,
> {
    match current {
        None => Some(
            UsageRowView {
                period_end: added.period_end,
                cpu_seconds: added.cpu_seconds,
                job_count: 1,
            },
        ),
        Some(row) => if !(i64::MIN <= row.cpu_seconds + added.cpu_seconds <= i64::MAX)
            || row.job_count == i32::MAX {
            None
        } else {
            Some(
                UsageRowView {
                    cpu_seconds: (row.cpu_seconds + added.cpu_seconds) as i64,
                    job_count: (row.job_count + 1) as i32,
                    ..row
                },
            )
        },
    }
}

/// The usage of an account after a contribution; none where it does not fit.
pub fn add_usage(current: &Option<UsageRow>, added: &Contribution) -> (out: Option<UsageRow>)
    ensures
        out.deep_view() == usage_added(current.deep_view(), added@),
{
    match current {
        None => Some(
            UsageRow {
                period_end: added.period_end,
                cpu_seconds: added.cpu_seconds,
                job_count: 1,
            },
        ),
        Some(row) => match (
            row.cpu_seconds.checked_add(added.cpu_seconds),
            row.job_count.checked_add(1),
        ) {
            (Some(cpu_seconds), Some(job_count)) => Some(
                UsageRow { period_end: row.period_end, cpu_seconds, job_count },
            ),
            _ => None,
        },
    }
}

/// The row of an execution whose end comes before its start.
pub open spec fn ended_row(
    key: RunKeyView,
    meta: RunMetadataView,
    receipt: FinalizationReceiptView,
) -> JobRowView {
    JobRowView {
        submission_generation: key.submission_generation,
        run_attempt: key.run_attempt,
        name: Seq::empty(),
        user_name: meta.user_name,
        account: meta.account,
        partition_name: Seq::empty(),
        num_nodes: 1,
        num_tasks: meta.num_tasks,
        cpus_per_task: meta.cpus_per_task,
        memory_mb: 0,
        submit_time: meta.start_time,
        start_time: Some(meta.start_time),
        end_time: Some(receipt.end_time),
        reservation: Seq::empty(),
        state: receipt.state,
        exit_code: receipt.exit_code,
        exit_signal: receipt.exit_signal,
        derived_exit_code: receipt.derived_exit_code,
    }
}

/// A row with this end.
pub open spec fn row_ended(row: JobRowView, receipt: FinalizationReceiptView) -> JobRowView {
    JobRowView {
        state: receipt.state,
        exit_code: receipt.exit_code,
        end_time: Some(receipt.end_time),
        exit_signal: receipt.exit_signal,
        derived_exit_code: receipt.derived_exit_code,
        ..row
    }
}

/// The row of a job after an execution ended; none where it stays, as that of
/// another execution does.
pub open spec fn end_projected(
    current: Option<JobRowView>,
    key: RunKeyView,
    meta: RunMetadataView,
    receipt: FinalizationReceiptView,
) -> Option<JobRowView> {
    match current {
        None => Some(ended_row(key, meta, receipt)),
        Some(row) => if row_is(row, key) {
            Some(row_ended(row, receipt))
        } else {
            None
        },
    }
}

fn end_row(row: &JobRow, receipt: &FinalizationReceipt) -> (out: JobRow)
    ensures
        out@ == row_ended(row@, receipt@),
{
    let mut next = row.copy_of();
    next.state = receipt.state.clone();
    next.exit_code = receipt.exit_code;
    next.end_time = Some(receipt.end_time);
    next.exit_signal = receipt.exit_signal;
    next.derived_exit_code = receipt.derived_exit_code;
    proof {
        assert(next@ =~= row_ended(row@, receipt@));
    }
    next
}

/// The row of a job after an execution ended; none where it stays.
pub fn project_end(
    current: &Option<JobRow>,
    key: &RunKey,
    meta: &RunMetadata,
    receipt: &FinalizationReceipt,
) -> (out: Option<JobRow>)
    ensures
        out.deep_view() == end_projected(current.deep_view(), key@, meta@, receipt@),
{
    match current {
        None => Some(
            JobRow {
                submission_generation: key.submission_generation,
                run_attempt: key.run_attempt,
                name: String::new(),
                user_name: meta.user_name.clone(),
                account: meta.account.clone(),
                partition_name: String::new(),
                num_nodes: 1,
                num_tasks: meta.num_tasks,
                cpus_per_task: meta.cpus_per_task,
                memory_mb: 0,
                submit_time: meta.start_time,
                start_time: Some(meta.start_time),
                end_time: Some(receipt.end_time),
                reservation: String::new(),
                state: receipt.state.clone(),
                exit_code: receipt.exit_code,
                exit_signal: receipt.exit_signal,
                derived_exit_code: receipt.derived_exit_code,
            },
        ),
        Some(row) => {
            if row.submission_generation == key.submission_generation && row.run_attempt
                == key.run_attempt {
                Some(end_row(row, receipt))
            } else {
                None
            }
        },
    }
}

/// Whether a row holds an end whose start has not been told.
pub open spec fn ended_early(row: JobRowView) -> bool {
    row.start_time is None && row.end_time is Some
}

/// The row of a job that starts, where executions are not told apart. A row with
/// a start is of another job that had the same ID, and nothing of it is kept. A
/// row without one holds the end of this very job, told early, and the end is
/// kept. Which execution it is stays unknown either way.
pub open spec fn job_started(current: Option<JobRowView>, start: JobStartView) -> JobRowView {
    let fresh = started_row(
        RunKeyView { job_id: 0, submission_generation: 0, run_attempt: 0 },
        start,
    );
    match current {
        Some(row) => if ended_early(row) {
            with_end_of(fresh, row)
        } else {
            fresh
        },
        None => fresh,
    }
}

/// The row of a job that starts, where executions are not told apart. Where the
/// row has an end, that end was told early, and the usage it could not yet add
/// is due now.
pub fn record_job_start(current: &Option<JobRow>, start: &JobStart) -> (out: JobRow)
    ensures
        out@ == job_started(current.deep_view(), start@),
{
    let none = RunKey { job_id: 0, submission_generation: 0, run_attempt: 0 };
    let mut row = row_of_start(&none, start);
    if let Some(current) = current {
        if current.start_time.is_none() && current.end_time.is_some() {
            row.end_time = current.end_time;
            row.state = current.state.clone();
            row.exit_code = current.exit_code;
            row.exit_signal = current.exit_signal;
            row.derived_exit_code = current.derived_exit_code;
        }
    }
    proof {
        assert(row@ =~= job_started(current.deep_view(), start@));
    }
    row
}

/// The row of a job that ends, where executions are not told apart; `now` is when
/// it is first heard of.
pub open spec fn job_ended(
    current: Option<JobRowView>,
    receipt: FinalizationReceiptView,
    now: Instant,
) -> JobRowView {
    let row = match current {
        Some(row) => row,
        None => JobRowView {
            submission_generation: 0,
            run_attempt: 0,
            name: Seq::empty(),
            user_name: Seq::empty(),
            account: Seq::empty(),
            partition_name: Seq::empty(),
            num_nodes: 1,
            num_tasks: 1,
            cpus_per_task: 1,
            memory_mb: 0,
            submit_time: now,
            start_time: None,
            end_time: None,
            reservation: Seq::empty(),
            state: Seq::empty(),
            exit_code: 0,
            exit_signal: 0,
            derived_exit_code: 0,
        },
    };
    row_ended(row, receipt)
}

/// The row of a job that ends, where executions are not told apart; `now` is when
/// it is first heard of.
pub fn record_job_end(current: &Option<JobRow>, receipt: &FinalizationReceipt, now: Instant) -> (out:
    JobRow)
    ensures
        out@ == job_ended(current.deep_view(), receipt@, now),
{
    match current {
        Some(row) => end_row(row, receipt),
        None => {
            let row = JobRow {
                submission_generation: 0,
                run_attempt: 0,
                name: String::new(),
                user_name: String::new(),
                account: String::new(),
                partition_name: String::new(),
                num_nodes: 1,
                num_tasks: 1,
                cpus_per_task: 1,
                memory_mb: 0,
                submit_time: now,
                start_time: None,
                end_time: None,
                reservation: String::new(),
                state: String::new(),
                exit_code: 0,
                exit_signal: 0,
                derived_exit_code: 0,
            };
            end_row(&row, receipt)
        },
    }
}

impl JobRowView {
    /// What of the row its usage depends on, where it has started.
    pub open spec fn metadata(self) -> Option<RunMetadataView> {
        match self.start_time {
            None => None,
            Some(start_time) => Some(
                RunMetadataView {
                    user_name: self.user_name,
                    account: self.account,
                    start_time,
                    num_tasks: self.num_tasks,
                    cpus_per_task: self.cpus_per_task,
                },
            ),
        }
    }
}

/// What a row that has ended adds to the usage of its account; nothing where its
/// start is not known.
pub fn update_usage(row: &JobRow, end_time: Instant) -> (out: Option<Contribution>)
    requires
        row@.metadata() matches Some(meta) ==> usage_fits(meta, end_time),
    ensures
        out.deep_view() == match row@.metadata() {
            None => None,
            Some(meta) => Some(contribution_of(meta, None, end_time)),
        },
{
    match row.start_time {
        None => None,
        Some(start_time) => {
            let meta = RunMetadata {
                user_name: row.user_name.clone(),
                account: row.account.clone(),
                start_time,
                num_tasks: row.num_tasks,
                cpus_per_task: row.cpus_per_task,
            };
            Some(contribute(&meta, None, end_time))
        },
    }
}

/// What the ledger says of one job.
pub open spec fn row_state(row: AccountingRowView) -> Result<AccountingRowStateView, Seq<char>> {
    if row.run_attempt < 0 {
        Err(
            "accounting row for job "@ + signed_decimal(row.job_id as int)
                + " has negative run attempt "@ + signed_decimal(row.run_attempt as int),
        )
    } else {
        Ok(
            AccountingRowStateView {
                submission_generation: row.submission_generation,
                run_attempt: row.run_attempt as u32,
                state: row.state,
                needs_start_backfill: row.user_name.len() == 0 || row.start_time is None,
            },
        )
    }
}

/// What the ledger says of these jobs, by job ID.
pub open spec fn states_of(rows: Seq<AccountingRowView>) -> Result<
    Map<i32, AccountingRowStateView>,
    Seq<char>,
>
    decreases rows.len(),
{
    if rows.len() == 0 {
        Ok(Map::empty())
    } else {
        match states_of(rows.drop_last()) {
            Err(message) => Err(message),
            Ok(before) => match row_state(rows.last()) {
                Err(message) => Err(message),
                Ok(state) => Ok(before.insert(rows.last().job_id, state)),
            },
        }
    }
}

proof fn lemma_states_error_stays(rows: Seq<AccountingRowView>, upto: int)
    requires
        0 <= upto <= rows.len(),
        states_of(rows.take(upto)) is Err,
    ensures
        states_of(rows) == states_of(rows.take(upto)),
    decreases rows.len(),
{
    if upto < rows.len() {
        assert(rows.drop_last().take(upto) =~= rows.take(upto));
        lemma_states_error_stays(rows.drop_last(), upto);
    } else {
        assert(rows.take(upto) =~= rows);
    }
}

/// What the ledger says of these jobs, by job ID.
pub fn job_accounting_states(rows: &Vec<AccountingRow>) -> (out: Result<
    PlainMap<i32, AccountingRowState>,
    String,
>)
    ensures
        recorded(out) == states_of(rows.deep_view()),
{
    let ghost items = rows.deep_view();
    let mut states: PlainMap<i32, AccountingRowState> = PlainMap::new();
    let mut i: usize = 0;
    proof {
        assert(items.take(0) =~= Seq::<AccountingRowView>::empty());
    }
    while i < rows.len()
        invariant
            i <= rows@.len(),
            items == rows.deep_view(),
            states_of(items.take(i as int)) == Ok::<
                Map<i32, AccountingRowStateView>,
                Seq<char>,
            >(states@),
        decreases rows@.len() - i,
    {
        let row = &rows[i];
        proof {
            assert(items.take(i + 1).drop_last() =~= items.take(i as int));
            assert(items.take(i + 1).last() == row@);
        }
        if row.run_attempt < 0 {
            let job = i64_text(row.job_id as i64);
            let attempt = i64_text(row.run_attempt as i64);
            let head = join3("accounting row for job ", job.as_str(), " has negative run attempt ");
            proof {
                lemma_states_error_stays(items, i + 1);
            }
            return Err(join2(head.as_str(), attempt.as_str()));
        }
        states.insert(
            row.job_id,
            AccountingRowState {
                submission_generation: row.submission_generation,
                run_attempt: row.run_attempt as u32,
                state: row.state.clone(),
                needs_start_backfill: is_blank(&row.user_name) || row.start_time.is_none(),
            },
        );
        i = i + 1;
    }
    proof {
        assert(items.take(i as int) =~= items);
    }
    Ok(states)
}

/// A recorded end accepts itself, and itself without its identity, and no other
/// outcome or identity.
pub proof fn law_replay_is_the_same_outcome(
    stored: FinalizationReceiptView,
    candidate: FinalizationReceiptView,
)
    ensures
        stored.accepts(stored),
        stored.accepts(FinalizationReceiptView { finalization_id: None, ..stored }),
        stored.accepts(candidate) ==> stored.state == candidate.state && stored.exit_code
            == candidate.exit_code && stored.exit_signal == candidate.exit_signal
            && stored.derived_exit_code == candidate.derived_exit_code && (
        candidate.finalization_id is Some ==> candidate.finalization_id == stored.finalization_id),
{
}

/// A finalization that is told again after it was written changes nothing: the
/// record stays, and its usage is not added a second time.
pub proof fn law_finalization_is_idempotent(
    key: RunKeyView,
    meta: RunMetadataView,
    receipt: FinalizationReceiptView,
    owner: Option<RunKeyView>,
    existing: Option<JobRunView>,
    claimed: Option<ContributionView>,
)
    ensures
        finalized(key, meta, receipt, owner, existing, claimed) matches Ok(writes) ==> {
            let run = run_after(existing, writes.run);
            let made = match writes.claim {
                Some(due) => Some(due),
                None => claimed,
            };
            let owner_after = if receipt.finalization_id is Some {
                Some(key)
            } else {
                owner
            };
            finalized(key, meta, receipt, owner_after, run, made) == Ok::<
                FinalizationWritesView,
                Seq<char>,
            >(FinalizationWritesView { run: RunWriteView::Keep, claim: None })
        },
{
}

/// A start that is told again after it was written changes nothing.
pub proof fn law_start_is_idempotent(
    key: RunKeyView,
    start: JobStartView,
    existing: Option<JobRunView>,
)
    ensures
        start_recorded(key, start, existing) matches Ok(write) ==> start_recorded(
            key,
            start,
            run_after(existing, write),
        ) == Ok::<RunWriteView, Seq<char>>(RunWriteView::Keep),
{
}

/// A start that comes after the end of its execution erases nothing of the end,
/// neither in the record nor in the row of the job.
pub proof fn law_late_start_keeps_the_end(
    key: RunKeyView,
    start: JobStartView,
    existing: JobRunView,
    current: JobRowView,
)
    ensures
        start_recorded(key, start, Some(existing)) matches Ok(write) ==> run_after(
            Some(existing),
            write,
        ) matches Some(run) && run.receipt() == existing.receipt(),
        row_is(current, key) ==> (start_projected(Some(current), key, start) matches Some(row)
            ==> row.end_time == current.end_time && (current.end_time is Some ==> row.state
            == current.state && row.exit_code == current.exit_code)),
{
}

/// An ID that is used again belongs to the new job alone: nothing of a job that
/// had started under it carries over, whatever came of that job.
pub proof fn law_reused_id_starts_afresh(row: JobRowView, start: JobStartView)
    requires
        row.start_time is Some,
    ensures
        job_started(Some(row), start) == job_started(None, start),
        ({
            let next = job_started(Some(row), start);
            &&& next.state == "RUNNING"@
            &&& next.end_time is None
            &&& next.exit_code == 0 && next.exit_signal == 0 && next.derived_exit_code == 0
            &&& next.name == start.name && next.user_name == start.user_name
            &&& next.account == start.account && next.partition_name == start.partition_name
            &&& next.submit_time == start.submit_time
            &&& next.start_time == Some(start.start_time)
            &&& next.reservation == start.reservation
        }),
{
}

/// An end that is told before its start is not lost. It adds no usage while the
/// start is unknown; once the start is told, the row holds both, and its usage is
/// what it would have been in the other order: the seconds of the job on each of
/// its CPUs, and one job.
pub proof fn law_early_end_is_booked_with_the_start(
    receipt: FinalizationReceiptView,
    now: Instant,
    start: JobStartView,
    later: Instant,
    usage: UsageRowView,
)
    requires
        usage_fits(start.metadata(), receipt.end_time),
    ensures
        ({
            let bare = job_ended(None, receipt, now);
            let row = job_started(Some(bare), start);
            &&& bare.metadata() is None
            &&& row.end_time == Some(receipt.end_time)
            &&& row.state == receipt.state && row.exit_code == receipt.exit_code
            &&& row.exit_signal == receipt.exit_signal && row.derived_exit_code
                == receipt.derived_exit_code
            &&& row.metadata() == Some(start.metadata())
            &&& row.reservation == start.reservation
            &&& row == job_ended(Some(job_started(None, start)), receipt, later)
            &&& contribution_of(row.metadata()->0, None, row.end_time->0).cpu_seconds
                == busy_seconds(start.start_time, receipt.end_time) * start.num_tasks
                * start.cpus_per_task
            &&& usage_added(
                Some(usage),
                contribution_of(row.metadata()->0, None, row.end_time->0),
            ) matches Some(after) ==> after.job_count == usage.job_count + 1 && after.cpu_seconds
                == usage.cpu_seconds + busy_seconds(start.start_time, receipt.end_time)
                * start.num_tasks * start.cpus_per_task
        }),
{
    let bare = job_ended(None, receipt, now);
    assert(job_started(Some(bare), start) =~= job_ended(
        Some(job_started(None, start)),
        receipt,
        later,
    ));
}

/// Start and end may be told in either order: the record says the same of the
/// execution.
pub proof fn law_order_does_not_matter(
    key: RunKeyView,
    start: JobStartView,
    receipt: FinalizationReceiptView,
)
    ensures
        ({
            let meta = start.metadata();
            let started = run_after(None, start_recorded(key, start, None)->Ok_0);
            let ended = run_after(None, end_recorded(key, meta, receipt, None)->Ok_0);
            &&& end_recorded(key, meta, receipt, started) is Ok
            &&& start_recorded(key, start, ended) is Ok
            &&& run_after(started, end_recorded(key, meta, receipt, started)->Ok_0) == run_after(
                ended,
                start_recorded(key, start, ended)->Ok_0,
            )
        }),
{
}

/// A late word of an earlier execution does not overwrite the row of a later one.
pub proof fn law_later_execution_stays(
    current: JobRowView,
    key: RunKeyView,
    start: JobStartView,
    meta: RunMetadataView,
    receipt: FinalizationReceiptView,
)
    ensures
        !row_is(current, key) ==> end_projected(Some(current), key, meta, receipt) is None,
        current.submission_generation == key.submission_generation && current.run_attempt
            > key.run_attempt && current.submit_time.in_micros() >= start.submit_time.in_micros()
            ==> start_projected(Some(current), key, start) is None,
        current.submission_generation != key.submission_generation
            && current.submit_time.in_micros() >= start.submit_time.in_micros() ==> start_projected(
            Some(current),
            key,
            start,
        ) is None,
{
}

/// Usage is never negative for work on a positive number of CPUs, and the hour it
/// is booked in is the one in which the execution started.
pub proof fn law_usage_is_booked_in_its_hour(meta: RunMetadataView, end_time: Instant)
    requires
        usage_fits(meta, end_time),
    ensures
        ({
            let due = contribution_of(meta, None, end_time);
            &&& due.period_start.secs <= meta.start_time.secs < due.period_end.secs
            &&& due.period_end.secs == due.period_start.secs + 3_600
            &&& meta.num_tasks >= 0 && meta.cpus_per_task >= 0 ==> due.cpu_seconds >= 0
        }),
{
    crate::clock::law_hour_holds_its_points(meta.start_time);
    let busy = busy_seconds(meta.start_time, end_time);
    let tasks = meta.num_tasks as int;
    let cpus = meta.cpus_per_task as int;
    if tasks >= 0 && cpus >= 0 {
        assert(busy * tasks * cpus >= 0) by (nonlinear_arith)
            requires
                busy >= 0,
                tasks >= 0,
                cpus >= 0,
        ;
    }
}

/// What a row says of the start of its job is what the start said: every field of
/// it, and the execution that it is of.
pub open spec fn row_tells(row: JobRowView, start: JobStartView) -> bool {
    &&& row.name == start.name
    &&& row.user_name == start.user_name
    &&& row.account == start.account
    &&& row.partition_name == start.partition_name
    &&& row.num_nodes == start.num_nodes
    &&& row.num_tasks == start.num_tasks
    &&& row.cpus_per_task == start.cpus_per_task
    &&& row.memory_mb == start.memory_mb
    &&& row.submit_time == start.submit_time
    &&& row.start_time == Some(start.start_time)
    &&& row.reservation == start.reservation
}

/// The row that a start writes tells everything that the start said, whatever was
/// there before; it runs unless its own end is already known.
pub proof fn law_row_tells_the_start(
    current: Option<JobRowView>,
    key: RunKeyView,
    start: JobStartView,
)
    ensures
        start_projected(current, key, start) matches Some(row) ==> {
            &&& row_tells(row, start)
            &&& row.submission_generation == key.submission_generation
            &&& row.run_attempt == key.run_attempt
            &&& row.end_time is None ==> row.state == "RUNNING"@ && row.exit_code == 0
                && row.exit_signal == 0 && row.derived_exit_code == 0
            &&& row.end_time is Some ==> {
                &&& current is Some
                &&& current->0.submission_generation == key.submission_generation
                &&& current->0.run_attempt == key.run_attempt
                &&& row.end_time == current->0.end_time
                &&& row.state == current->0.state
                &&& row.exit_code == current->0.exit_code
                &&& row.exit_signal == current->0.exit_signal
                &&& row.derived_exit_code == current->0.derived_exit_code
            }
        },
        current is None ==> start_projected(current, key, start) is Some,
        row_tells(job_started(current, start), start),
{
}

/// A start replaces the row of an earlier submission, and that of an earlier
/// attempt or of the same one.
pub proof fn law_newer_start_takes_the_row(
    current: JobRowView,
    key: RunKeyView,
    start: JobStartView,
)
    requires
        current.submit_time.secs * 1_000_000 + current.submit_time.nanos as int / 1_000
            < start.submit_time.secs * 1_000_000 + start.submit_time.nanos as int / 1_000 || (
        current.submission_generation == key.submission_generation && current.run_attempt
            <= key.run_attempt),
    ensures
        start_projected(Some(current), key, start) is Some,
{
}

/// The record of an execution holds every field of its start once the start was
/// told, and a start that differs in any of them is refused.
pub proof fn law_record_holds_the_start(
    key: RunKeyView,
    start: JobStartView,
    existing: Option<JobRunView>,
)
    requires
        start.wf(),
        existing matches Some(run) ==> run.wf(),
    ensures
        start_recorded(key, start, existing) matches Ok(write) ==> run_after(existing, write) matches Some(
            run,
        ) && {
            &&& run.start_recorded
            &&& run.start.name == start.name
            &&& run.start.user_name == start.user_name
            &&& run.start.account == start.account
            &&& run.start.partition_name == start.partition_name
            &&& run.start.num_nodes == start.num_nodes
            &&& run.start.num_tasks == start.num_tasks
            &&& run.start.cpus_per_task == start.cpus_per_task
            &&& run.start.memory_mb == start.memory_mb
            &&& run.start.reservation == start.reservation
            &&& run.start.submit_time.secs == start.submit_time.secs
            &&& run.start.submit_time.nanos as int / 1_000 == start.submit_time.nanos as int / 1_000
            &&& run.start.start_time.secs == start.start_time.secs
            &&& run.start.start_time.nanos as int / 1_000 == start.start_time.nanos as int / 1_000
            &&& existing is None ==> run.start == start && run.state == "RUNNING"@
                && run.end_time is None && run.exit_code == 0 && run.exit_signal == 0
                && run.derived_exit_code == 0 && run.finalization_id is None
            &&& existing matches Some(before) ==> {
                &&& run.end_time == before.end_time
                &&& run.state == before.state
                &&& run.exit_code == before.exit_code
                &&& run.exit_signal == before.exit_signal
                &&& run.derived_exit_code == before.derived_exit_code
                &&& run.finalization_id == before.finalization_id
            }
        },
        existing is None ==> start_recorded(key, start, existing) is Ok,
{
    if let (Some(run), Ok(_)) = (existing, start_recorded(key, start, existing)) {
        lemma_same_micros(run.start.submit_time, start.submit_time);
        lemma_same_micros(run.start.start_time, start.start_time);
    }
}

proof fn lemma_same_micros(a: Instant, b: Instant)
    requires
        a.wf(),
        b.wf(),
    ensures
        same_micros(a, b) ==> a.secs == b.secs && a.nanos as int / 1_000 == b.nanos as int / 1_000,
{
}

/// Telling the end of an execution leaves in its record the outcome that was told
/// and nothing else changed: a first end is written, and a second is accepted only
/// where it is the same.
pub proof fn law_record_holds_the_end(
    key: RunKeyView,
    meta: RunMetadataView,
    receipt: FinalizationReceiptView,
    existing: Option<JobRunView>,
)
    ensures
        end_recorded(key, meta, receipt, existing) matches Ok(write) ==> run_after(existing, write) matches Some(
            run,
        ) && {
            &&& run.end_time is Some
            &&& run.state == receipt.state
            &&& run.exit_code == receipt.exit_code
            &&& run.exit_signal == receipt.exit_signal
            &&& run.derived_exit_code == receipt.derived_exit_code
            &&& receipt.finalization_id is Some ==> run.finalization_id == receipt.finalization_id
            &&& run.start.user_name == meta.user_name
            &&& run.start.account == meta.account
            &&& run.start.num_tasks == meta.num_tasks
            &&& run.start.cpus_per_task == meta.cpus_per_task
            &&& existing is None ==> !run.start_recorded && run.start.start_time == meta.start_time
                && run.end_time == Some(receipt.end_time)
            &&& existing matches Some(before) ==> run.start == before.start && run.start_recorded
                == before.start_recorded && (before.end_time is Some ==> run == before) && (
            before.end_time is None ==> run.end_time == Some(receipt.end_time)
                && run.finalization_id == receipt.finalization_id)
        },
        existing is None ==> end_recorded(key, meta, receipt, existing) is Ok,
        existing matches Some(before) ==> (before.start.user_name != meta.user_name
            || before.start.account != meta.account || before.start.num_tasks != meta.num_tasks
            || before.start.cpus_per_task != meta.cpus_per_task || (before.end_time is Some && (
        before.state != receipt.state || before.exit_code != receipt.exit_code || before.exit_signal
            != receipt.exit_signal || before.derived_exit_code != receipt.derived_exit_code))
            ==> end_recorded(key, meta, receipt, existing) is Err),
{
}

/// The row of a job tells its end once the end was told of the execution that the
/// row is of; nothing else in it changes. A row that the end itself makes tells
/// what the end knows of the start.
pub proof fn law_row_tells_the_end(
    current: Option<JobRowView>,
    key: RunKeyView,
    meta: RunMetadataView,
    receipt: FinalizationReceiptView,
    now: Instant,
)
    ensures
        end_projected(current, key, meta, receipt) matches Some(row) ==> {
            &&& row.end_time == Some(receipt.end_time)
            &&& row.state == receipt.state
            &&& row.exit_code == receipt.exit_code
            &&& row.exit_signal == receipt.exit_signal
            &&& row.derived_exit_code == receipt.derived_exit_code
            &&& row.submission_generation == key.submission_generation
            &&& row.run_attempt == key.run_attempt
            &&& current is None ==> row.user_name == meta.user_name && row.account == meta.account
                && row.num_tasks == meta.num_tasks && row.cpus_per_task == meta.cpus_per_task
                && row.start_time == Some(meta.start_time)
            &&& current matches Some(before) ==> same_start(row, before)
        },
        current is None ==> end_projected(current, key, meta, receipt) is Some,
        current matches Some(before) ==> (before.submission_generation == key.submission_generation
            && before.run_attempt == key.run_attempt ==> end_projected(
            current,
            key,
            meta,
            receipt,
        ) is Some),
        ({
            let row = job_ended(current, receipt, now);
            &&& row.end_time == Some(receipt.end_time)
            &&& row.state == receipt.state
            &&& row.exit_code == receipt.exit_code
            &&& row.exit_signal == receipt.exit_signal
            &&& row.derived_exit_code == receipt.derived_exit_code
            &&& current matches Some(before) ==> same_start(row, before)
            &&& current is None ==> row.start_time is None && row.submit_time == now
                && row.user_name.len() == 0
        }),
{
}

/// Whether two rows say the same of the start of a job.
pub open spec fn same_start(a: JobRowView, b: JobRowView) -> bool {
    &&& a.submission_generation == b.submission_generation
    &&& a.run_attempt == b.run_attempt
    &&& a.name == b.name
    &&& a.user_name == b.user_name
    &&& a.account == b.account
    &&& a.partition_name == b.partition_name
    &&& a.num_nodes == b.num_nodes
    &&& a.num_tasks == b.num_tasks
    &&& a.cpus_per_task == b.cpus_per_task
    &&& a.memory_mb == b.memory_mb
    &&& a.submit_time == b.submit_time
    &&& a.start_time == b.start_time
    &&& a.reservation == b.reservation
}

/// What an execution adds to the usage of its account: for each of its CPUs, the
/// whole seconds that it ran, and none where it ended before it started.
pub proof fn law_usage_is_time_on_cpus(
    meta: RunMetadataView,
    finalization_id: Option<u128>,
    end_time: Instant,
)
    requires
        usage_fits(meta, end_time),
    ensures
        ({
            let due = contribution_of(meta, finalization_id, end_time);
            let ran = (end_time.secs - meta.start_time.secs) * 1_000_000_000 + end_time.nanos
                - meta.start_time.nanos;
            &&& due.user_name == meta.user_name
            &&& due.account == meta.account
            &&& due.finalization_id == finalization_id
            &&& due.period_start.secs as int % 3_600 == 0 && due.period_start.nanos == 0
            &&& due.period_end.secs == due.period_start.secs + 3_600 && due.period_end.nanos == 0
            &&& due.period_start.secs <= meta.start_time.secs < due.period_end.secs
            &&& exists|secs: int|
                {
                    &&& 0 <= secs
                    &&& ran < 0 ==> secs == 0
                    &&& ran >= 0 ==> secs * 1_000_000_000 <= ran < (secs + 1) * 1_000_000_000
                    &&& due.cpu_seconds == #[trigger] cpu_time(secs, meta)
                }
        }),
{
    let secs = busy_seconds(meta.start_time, end_time);
    crate::clock::law_hour_holds_its_points(meta.start_time);
    assert(cpu_time(secs, meta) == cpu_seconds_of(meta, end_time));
}

/// The CPU time of a job that runs for this many seconds.
pub open spec fn cpu_time(secs: int, meta: RunMetadataView) -> int {
    secs * meta.num_tasks * meta.cpus_per_task
}

/// A contribution adds its CPU seconds and one job to the usage of its hour, and
/// is refused only where the sum does not fit.
pub proof fn law_usage_adds_up(current: UsageRowView, added: ContributionView)
    ensures
        usage_added(None, added) matches Some(row) && row.cpu_seconds == added.cpu_seconds
            && row.job_count == 1 && row.period_end == added.period_end,
        usage_added(Some(current), added) matches Some(row) ==> row.cpu_seconds
            == current.cpu_seconds + added.cpu_seconds && row.job_count == current.job_count + 1
            && row.period_end == current.period_end,
        usage_added(Some(current), added) is None ==> current.cpu_seconds + added.cpu_seconds
            > i64::MAX || current.cpu_seconds + added.cpu_seconds < i64::MIN || current.job_count
            == i32::MAX,
{
}

/// The usage of an execution is claimed exactly once: where it was not claimed
/// before, and never again. An identity of a finalization belongs to one execution.
pub proof fn law_usage_is_claimed_once(
    key: RunKeyView,
    meta: RunMetadataView,
    receipt: FinalizationReceiptView,
    owner: Option<RunKeyView>,
    existing: Option<JobRunView>,
    claimed: Option<ContributionView>,
)
    ensures
        finalized(key, meta, receipt, owner, existing, claimed) matches Ok(writes) ==> {
            &&& writes.claim is Some <==> claimed is None
            &&& writes.claim matches Some(due) ==> due.user_name == meta.user_name && due.account
                == meta.account
            &&& claimed matches Some(made) ==> made.user_name == meta.user_name && made.account
                == meta.account
            &&& receipt.finalization_id is Some && owner is Some ==> owner == Some(key)
        },
        receipt.finalization_id is Some && owner is Some && owner != Some(key) ==> finalized(
            key,
            meta,
            receipt,
            owner,
            existing,
            claimed,
        ) is Err,
        (receipt.finalization_id is None || owner is None || owner == Some(key)) && existing is None
            && claimed is None ==> finalized(key, meta, receipt, owner, existing, claimed) is Ok,
{
}

/// What the ledger says of a job is what its row says, where no two rows are of
/// the same job; of a job without a row it says nothing.
pub proof fn law_each_job_is_told_by_its_row(rows: Seq<AccountingRowView>, i: int)
    requires
        0 <= i < rows.len(),
        forall|j: int, k: int|
            0 <= j < k < rows.len() ==> (#[trigger] rows[j]).job_id != (#[trigger] rows[k]).job_id,
    ensures
        states_of(rows) matches Ok(states) ==> {
            &&& states.contains_key(rows[i].job_id)
            &&& row_state(rows[i]) == Ok::<AccountingRowStateView, Seq<char>>(
                states[rows[i].job_id],
            )
            &&& forall|id: i32| #[trigger]
                states.contains_key(id) ==> exists|j: int|
                    0 <= j < rows.len() && (#[trigger] rows[j]).job_id == id
        },
    decreases rows.len(),
{
    let before = rows.drop_last();
    lemma_states_come_from_rows(rows);
    if i < rows.len() - 1 {
        assert forall|j: int, k: int| 0 <= j < k < before.len() implies (
        #[trigger] before[j]).job_id != (#[trigger] before[k]).job_id by {
            assert(rows[j].job_id != rows[k].job_id);
        }
        law_each_job_is_told_by_its_row(before, i);
        assert(rows[i].job_id != rows[rows.len() - 1].job_id);
    }
}

proof fn lemma_states_come_from_rows(rows: Seq<AccountingRowView>)
    ensures
        states_of(rows) matches Ok(states) ==> forall|id: i32| #[trigger]
            states.contains_key(id) ==> exists|j: int|
                0 <= j < rows.len() && (#[trigger] rows[j]).job_id == id,
    decreases rows.len(),
{
    if rows.len() > 0 {
        let before = rows.drop_last();
        lemma_states_come_from_rows(before);
        if let Ok(states) = states_of(rows) {
            assert forall|id: i32| #[trigger] states.contains_key(id) implies exists|j: int|
                0 <= j < rows.len() && (#[trigger] rows[j]).job_id == id by {
                if id == rows.last().job_id {
                    assert(rows[rows.len() - 1].job_id == id);
                } else {
                    let j = choose|j: int| 0 <= j < before.len() && (#[trigger] before[j]).job_id == id;
                    assert(rows[j].job_id == id);
                }
            }
        }
    }
}

/// A row needs its start told again exactly where it does not know its user or
/// when it started; a negative attempt is no row of an execution.
pub proof fn law_bare_rows_need_their_start(row: AccountingRowView)
    ensures
        row.run_attempt < 0 ==> row_state(row) is Err,
        row.run_attempt >= 0 ==> (row_state(row) matches Ok(state) && {
            &&& state.submission_generation == row.submission_generation
            &&& state.run_attempt == row.run_attempt
            &&& state.state == row.state
            &&& state.needs_start_backfill <==> row.user_name.len() == 0 || row.start_time is None
        }),
{
}

/// A start that was recorded is told again without harm, and any other start of
/// the same run is refused: a different name, owner, place, size or time.
pub proof fn law_another_start_is_refused(
    key: RunKeyView,
    start: JobStartView,
    run: JobRunView,
)
    requires
        run.start_recorded,
    ensures
        ({
            let there = run.start;
            let same = there.name == start.name && there.user_name == start.user_name
                && there.account == start.account && there.partition_name == start.partition_name
                && there.num_nodes == start.num_nodes && there.num_tasks == start.num_tasks
                && there.cpus_per_task == start.cpus_per_task && there.memory_mb == start.memory_mb
                && there.reservation == start.reservation && there.submit_time.in_micros()
                == start.submit_time.in_micros() && there.start_time.in_micros()
                == start.start_time.in_micros();
            &&& same ==> start_recorded(key, start, Some(run)) == Ok::<RunWriteView, Seq<char>>(
                RunWriteView::Keep,
            )
            &&& !same ==> start_recorded(key, start, Some(run)) is Err
        }),
{
}

/// A start that comes after its end is taken where the end was of the same user,
/// account, time and size, and refused otherwise.
pub proof fn law_late_start_must_fit_its_end(
    key: RunKeyView,
    start: JobStartView,
    run: JobRunView,
)
    requires
        !run.start_recorded,
    ensures
        start_recorded(key, start, Some(run)) is Ok <==> run.start.user_name == start.user_name
            && run.start.account == start.account && run.start.num_tasks == start.num_tasks
            && run.start.cpus_per_task == start.cpus_per_task && run.start.start_time.in_micros()
            == start.start_time.in_micros(),
        start_recorded(key, start, Some(run)) matches Ok(write) ==> write matches RunWriteView::Replace(
            next,
        ) && next.start == start && next.start_recorded && next.state == run.state && next.exit_code
            == run.exit_code && next.exit_signal == run.exit_signal && next.derived_exit_code
            == run.derived_exit_code && next.end_time == run.end_time && next.finalization_id
            == run.finalization_id,
{
}

/// An end is refused where the run is of another user, account, time or size, or
/// has ended in another way.
pub proof fn law_another_end_is_refused(
    key: RunKeyView,
    meta: RunMetadataView,
    receipt: FinalizationReceiptView,
    run: JobRunView,
)
    ensures
        ({
            let fits = run.start.user_name == meta.user_name && run.start.account == meta.account
                && run.start.num_tasks == meta.num_tasks && run.start.cpus_per_task
                == meta.cpus_per_task && run.start.start_time.in_micros()
                == meta.start_time.in_micros();
            let same = run.end_time is Some && (run.end_time->0).in_micros()
                == receipt.end_time.in_micros() && run.state == receipt.state && run.exit_code
                == receipt.exit_code && run.exit_signal == receipt.exit_signal
                && run.derived_exit_code == receipt.derived_exit_code && (
            receipt.finalization_id is None || run.finalization_id == receipt.finalization_id);
            let out = end_recorded(key, meta, receipt, Some(run));
            &&& out is Ok <==> fits && (run.end_time is None || same)
            &&& out is Ok && run.end_time is Some ==> out->Ok_0 is Keep
            &&& out is Ok && run.end_time is None ==> out->Ok_0 is Replace
        }),
{
}

/// A finalization belongs to one execution, and its usage is claimed once: by
/// another execution it is refused, and so is a claim of other usage.
pub proof fn law_finalization_belongs_to_one_execution(
    key: RunKeyView,
    meta: RunMetadataView,
    receipt: FinalizationReceiptView,
    owner: RunKeyView,
    existing: Option<JobRunView>,
    made: ContributionView,
)
    ensures
        receipt.finalization_id is Some && owner != key ==> finalized(
            key,
            meta,
            receipt,
            Some(owner),
            existing,
            None,
        ) is Err,
        end_recorded(key, meta, receipt, existing) is Err ==> finalized(
            key,
            meta,
            receipt,
            None,
            existing,
            None,
        ) is Err,
        end_recorded(key, meta, receipt, existing) is Ok ==> finalized(
            key,
            meta,
            receipt,
            Some(key),
            existing,
            None,
        ) is Ok,
        made.user_name != meta.user_name || made.account != meta.account || made.cpu_seconds
            != contribution_of(meta, receipt.finalization_id, receipt.end_time).cpu_seconds
            ==> finalized(key, meta, receipt, None, existing, Some(made)) is Err,
        end_recorded(key, meta, receipt, existing) is Ok && made == contribution_of(
            meta,
            receipt.finalization_id,
            receipt.end_time,
        ) ==> (finalized(key, meta, receipt, None, existing, Some(made)) matches Ok(writes)
            && writes.claim is None),
        usage_is_due(key, meta, receipt, Some(owner), existing) <==> (
        receipt.finalization_id is None || owner == key) && end_recorded(
            key,
            meta,
            receipt,
            existing,
        ) is Ok,
{
}

/// The row of a run gives way to a later submission, and to the same one's later
/// attempts; it stays where a later one is there.
pub proof fn law_row_is_of_the_latest_execution(
    row: JobRowView,
    key: RunKeyView,
    start: JobStartView,
)
    ensures
        start_projected(Some(row), key, start) is Some <==> row.submit_time.in_micros()
            < start.submit_time.in_micros() || (row.submission_generation
            == key.submission_generation && row.run_attempt <= key.run_attempt),
        start_projected(None, key, start) is Some,
{
}

} // verus!
