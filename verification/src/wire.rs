//! Messages between the controller, the operator and the agents.

use vstd::prelude::*;
use crate::clock::{num_seconds, Instant, TimeSpan};
use crate::execution_identity::or_empty;
use crate::plain::Plain;
use crate::strmap::StrMap;

verus! {

/// So many GPUs of a type.
#[derive(Clone, Debug, Default)]
pub struct GpuRequest {
    pub count: u32,
    pub gpu_type: Option<String>,
}

/// What a [`GpuRequest`] holds.
#[verifier::ext_equal]
pub struct GpuRequestView {
    pub count: u32,
    pub gpu_type: Option<Seq<char>>,
}

impl View for GpuRequest {
    type V = GpuRequestView;

    open spec fn view(&self) -> GpuRequestView {
        GpuRequestView {
            count: self.count.deep_view(),
            gpu_type: self.gpu_type.deep_view(),
        }
    }
}

impl DeepView for GpuRequest {
    type V = GpuRequestView;

    open spec fn deep_view(&self) -> GpuRequestView {
        self@
    }
}

impl Plain for GpuRequest {
    fn equals(&self, other: &Self) -> (same: bool) {
        self.count.equals(&other.count)
            && self.gpu_type.equals(&other.gpu_type)
    }

    fn copy_of(&self) -> (out: Self) {
        GpuRequest {
            count: self.count.copy_of(),
            gpu_type: self.gpu_type.copy_of(),
        }
    }
}

/// A length of time on the wire.
#[derive(Clone, Debug, Default)]
pub struct WireDuration {
    pub seconds: i64,
    pub nanos: i32,
}

/// What a [`WireDuration`] holds.
#[verifier::ext_equal]
pub struct WireDurationView {
    pub seconds: i64,
    pub nanos: i32,
}

impl View for WireDuration {
    type V = WireDurationView;

    open spec fn view(&self) -> WireDurationView {
        WireDurationView {
            seconds: self.seconds.deep_view(),
            nanos: self.nanos.deep_view(),
        }
    }
}

impl DeepView for WireDuration {
    type V = WireDurationView;

    open spec fn deep_view(&self) -> WireDurationView {
        self@
    }
}

impl Plain for WireDuration {
    fn equals(&self, other: &Self) -> (same: bool) {
        self.seconds.equals(&other.seconds)
            && self.nanos.equals(&other.nanos)
    }

    fn copy_of(&self) -> (out: Self) {
        WireDuration {
            seconds: self.seconds.copy_of(),
            nanos: self.nanos.copy_of(),
        }
    }
}

/// A point in time on the wire.
#[derive(Clone, Debug, Default)]
pub struct WireTimestamp {
    pub seconds: i64,
    pub nanos: i32,
}

/// What a [`WireTimestamp`] holds.
#[verifier::ext_equal]
pub struct WireTimestampView {
    pub seconds: i64,
    pub nanos: i32,
}

impl View for WireTimestamp {
    type V = WireTimestampView;

    open spec fn view(&self) -> WireTimestampView {
        WireTimestampView {
            seconds: self.seconds.deep_view(),
            nanos: self.nanos.deep_view(),
        }
    }
}

impl DeepView for WireTimestamp {
    type V = WireTimestampView;

    open spec fn deep_view(&self) -> WireTimestampView {
        self@
    }
}

impl Plain for WireTimestamp {
    fn equals(&self, other: &Self) -> (same: bool) {
        self.seconds.equals(&other.seconds)
            && self.nanos.equals(&other.nanos)
    }

    fn copy_of(&self) -> (out: Self) {
        WireTimestamp {
            seconds: self.seconds.copy_of(),
            nanos: self.nanos.copy_of(),
        }
    }
}

/// The size of a terminal.
#[derive(Clone, Debug, Default)]
pub struct WindowSize {
    pub rows: u32,
    pub cols: u32,
}

/// What a [`WindowSize`] holds.
#[verifier::ext_equal]
pub struct WindowSizeView {
    pub rows: u32,
    pub cols: u32,
}

impl View for WindowSize {
    type V = WindowSizeView;

    open spec fn view(&self) -> WindowSizeView {
        WindowSizeView {
            rows: self.rows.deep_view(),
            cols: self.cols.deep_view(),
        }
    }
}

impl DeepView for WindowSize {
    type V = WindowSizeView;

    open spec fn deep_view(&self) -> WindowSizeView {
        self@
    }
}

impl Plain for WindowSize {
    fn equals(&self, other: &Self) -> (same: bool) {
        self.rows.equals(&other.rows)
            && self.cols.equals(&other.cols)
    }

    fn copy_of(&self) -> (out: Self) {
        WindowSize {
            rows: self.rows.copy_of(),
            cols: self.cols.copy_of(),
        }
    }
}

/// What a job asks for.
#[derive(Clone, Debug, Default)]
pub struct JobSpec {
    pub name: String,
    pub partition: Option<String>,
    pub account: Option<String>,
    pub user: String,
    pub uid: u32,
    pub gid: u32,
    pub num_nodes: u32,
    pub num_tasks: u32,
    pub tasks_per_node: Option<u32>,
    pub cpus_per_task: u32,
    pub memory_per_node_mb: Option<u64>,
    pub memory_per_cpu_mb: Option<u64>,
    pub gres: Vec<String>,
    pub gpus: Option<GpuRequest>,
    pub gpus_per_node: Option<GpuRequest>,
    pub gpus_per_task: Option<GpuRequest>,
    pub script: Option<String>,
    pub argv: Vec<String>,
    pub script_args: Vec<String>,
    pub work_dir: String,
    pub stdout_path: Option<String>,
    pub stderr_path: Option<String>,
    pub stdin_path: Option<String>,
    pub environment: StrMap,
    pub time_limit: Option<TimeSpan>,
    pub time_min: Option<TimeSpan>,
    pub qos: Option<String>,
    pub priority: Option<u32>,
    pub reservation: Option<String>,
    pub dependency: Vec<String>,
    pub nodelist: Option<String>,
    pub exclude: Option<String>,
    pub constraint: Option<String>,
    pub mpi: Option<String>,
    pub distribution: Option<String>,
    pub het_group: Option<u32>,
    pub array_spec: Option<String>,
    pub requeue: bool,
    pub exclusive: bool,
    pub hold: bool,
    pub comment: Option<String>,
    pub wckey: Option<String>,
    pub container_image: Option<String>,
    pub container_mounts: Vec<String>,
    pub container_workdir: Option<String>,
    pub container_name: Option<String>,
    pub container_readonly: bool,
    pub container_mount_home: bool,
    pub container_env: StrMap,
    pub container_entrypoint: Option<String>,
    pub container_remap_root: bool,
    pub burst_buffer: Option<String>,
    pub srun_job: bool,
    pub begin_time: Option<Instant>,
    pub deadline: Option<Instant>,
    pub spread_job: bool,
    pub topology: Option<String>,
    pub host_network: bool,
    pub privileged: bool,
    pub host_ipc: bool,
    pub shm_size: Option<String>,
    pub extra_resources: StrMap,
    pub open_mode: Option<String>,
    pub pty: bool,
}

/// What a [`JobSpec`] holds.
#[verifier::ext_equal]
pub struct JobSpecView {
    pub name: Seq<char>,
    pub partition: Option<Seq<char>>,
    pub account: Option<Seq<char>>,
    pub user: Seq<char>,
    pub uid: u32,
    pub gid: u32,
    pub num_nodes: u32,
    pub num_tasks: u32,
    pub tasks_per_node: Option<u32>,
    pub cpus_per_task: u32,
    pub memory_per_node_mb: Option<u64>,
    pub memory_per_cpu_mb: Option<u64>,
    pub gres: Seq<Seq<char>>,
    pub gpus: Option<GpuRequestView>,
    pub gpus_per_node: Option<GpuRequestView>,
    pub gpus_per_task: Option<GpuRequestView>,
    pub script: Option<Seq<char>>,
    pub argv: Seq<Seq<char>>,
    pub script_args: Seq<Seq<char>>,
    pub work_dir: Seq<char>,
    pub stdout_path: Option<Seq<char>>,
    pub stderr_path: Option<Seq<char>>,
    pub stdin_path: Option<Seq<char>>,
    pub environment: Map<Seq<char>, Seq<char>>,
    pub time_limit: Option<TimeSpan>,
    pub time_min: Option<TimeSpan>,
    pub qos: Option<Seq<char>>,
    pub priority: Option<u32>,
    pub reservation: Option<Seq<char>>,
    pub dependency: Seq<Seq<char>>,
    pub nodelist: Option<Seq<char>>,
    pub exclude: Option<Seq<char>>,
    pub constraint: Option<Seq<char>>,
    pub mpi: Option<Seq<char>>,
    pub distribution: Option<Seq<char>>,
    pub het_group: Option<u32>,
    pub array_spec: Option<Seq<char>>,
    pub requeue: bool,
    pub exclusive: bool,
    pub hold: bool,
    pub comment: Option<Seq<char>>,
    pub wckey: Option<Seq<char>>,
    pub container_image: Option<Seq<char>>,
    pub container_mounts: Seq<Seq<char>>,
    pub container_workdir: Option<Seq<char>>,
    pub container_name: Option<Seq<char>>,
    pub container_readonly: bool,
    pub container_mount_home: bool,
    pub container_env: Map<Seq<char>, Seq<char>>,
    pub container_entrypoint: Option<Seq<char>>,
    pub container_remap_root: bool,
    pub burst_buffer: Option<Seq<char>>,
    pub srun_job: bool,
    pub begin_time: Option<Instant>,
    pub deadline: Option<Instant>,
    pub spread_job: bool,
    pub topology: Option<Seq<char>>,
    pub host_network: bool,
    pub privileged: bool,
    pub host_ipc: bool,
    pub shm_size: Option<Seq<char>>,
    pub extra_resources: Map<Seq<char>, Seq<char>>,
    pub open_mode: Option<Seq<char>>,
    pub pty: bool,
}

impl View for JobSpec {
    type V = JobSpecView;

    open spec fn view(&self) -> JobSpecView {
        JobSpecView {
            name: self.name.deep_view(),
            partition: self.partition.deep_view(),
            account: self.account.deep_view(),
            user: self.user.deep_view(),
            uid: self.uid.deep_view(),
            gid: self.gid.deep_view(),
            num_nodes: self.num_nodes.deep_view(),
            num_tasks: self.num_tasks.deep_view(),
            tasks_per_node: self.tasks_per_node.deep_view(),
            cpus_per_task: self.cpus_per_task.deep_view(),
            memory_per_node_mb: self.memory_per_node_mb.deep_view(),
            memory_per_cpu_mb: self.memory_per_cpu_mb.deep_view(),
            gres: self.gres.deep_view(),
            gpus: self.gpus.deep_view(),
            gpus_per_node: self.gpus_per_node.deep_view(),
            gpus_per_task: self.gpus_per_task.deep_view(),
            script: self.script.deep_view(),
            argv: self.argv.deep_view(),
            script_args: self.script_args.deep_view(),
            work_dir: self.work_dir.deep_view(),
            stdout_path: self.stdout_path.deep_view(),
            stderr_path: self.stderr_path.deep_view(),
            stdin_path: self.stdin_path.deep_view(),
            environment: self.environment.deep_view(),
            time_limit: self.time_limit.deep_view(),
            time_min: self.time_min.deep_view(),
            qos: self.qos.deep_view(),
            priority: self.priority.deep_view(),
            reservation: self.reservation.deep_view(),
            dependency: self.dependency.deep_view(),
            nodelist: self.nodelist.deep_view(),
            exclude: self.exclude.deep_view(),
            constraint: self.constraint.deep_view(),
            mpi: self.mpi.deep_view(),
            distribution: self.distribution.deep_view(),
            het_group: self.het_group.deep_view(),
            array_spec: self.array_spec.deep_view(),
            requeue: self.requeue.deep_view(),
            exclusive: self.exclusive.deep_view(),
            hold: self.hold.deep_view(),
            comment: self.comment.deep_view(),
            wckey: self.wckey.deep_view(),
            container_image: self.container_image.deep_view(),
            container_mounts: self.container_mounts.deep_view(),
            container_workdir: self.container_workdir.deep_view(),
            container_name: self.container_name.deep_view(),
            container_readonly: self.container_readonly.deep_view(),
            container_mount_home: self.container_mount_home.deep_view(),
            container_env: self.container_env.deep_view(),
            container_entrypoint: self.container_entrypoint.deep_view(),
            container_remap_root: self.container_remap_root.deep_view(),
            burst_buffer: self.burst_buffer.deep_view(),
            srun_job: self.srun_job.deep_view(),
            begin_time: self.begin_time.deep_view(),
            deadline: self.deadline.deep_view(),
            spread_job: self.spread_job.deep_view(),
            topology: self.topology.deep_view(),
            host_network: self.host_network.deep_view(),
            privileged: self.privileged.deep_view(),
            host_ipc: self.host_ipc.deep_view(),
            shm_size: self.shm_size.deep_view(),
            extra_resources: self.extra_resources.deep_view(),
            open_mode: self.open_mode.deep_view(),
            pty: self.pty.deep_view(),
        }
    }
}

impl DeepView for JobSpec {
    type V = JobSpecView;

    open spec fn deep_view(&self) -> JobSpecView {
        self@
    }
}

/// What a job asks for, as the controller and the agents exchange it. An empty text
/// or a zero stands for a value that is not given.
#[derive(Clone, Debug, Default)]
pub struct WireJobSpec {
    pub name: String,
    pub partition: String,
    pub account: String,
    pub user: String,
    pub uid: u32,
    pub gid: u32,
    pub num_nodes: u32,
    pub num_tasks: u32,
    pub tasks_per_node: u32,
    pub cpus_per_task: u32,
    pub memory_per_node_mb: u64,
    pub memory_per_cpu_mb: u64,
    pub gres: Vec<String>,
    pub gpus: Option<GpuRequest>,
    pub gpus_per_node: Option<GpuRequest>,
    pub gpus_per_task: Option<GpuRequest>,
    pub script: String,
    pub argv: Vec<String>,
    pub script_args: Vec<String>,
    pub work_dir: String,
    pub stdout_path: String,
    pub stderr_path: String,
    pub stdin_path: String,
    pub environment: StrMap,
    pub time_limit: Option<WireDuration>,
    pub time_min: Option<WireDuration>,
    pub qos: String,
    pub priority: u32,
    pub reservation: String,
    pub dependency: Vec<String>,
    pub nodelist: String,
    pub exclude: String,
    pub constraint: String,
    pub mpi: String,
    pub distribution: String,
    pub het_group: u32,
    pub array_spec: String,
    pub requeue: bool,
    pub exclusive: bool,
    pub hold: bool,
    pub comment: String,
    pub wckey: String,
    pub container_image: String,
    pub container_mounts: Vec<String>,
    pub container_workdir: String,
    pub container_name: String,
    pub container_readonly: bool,
    pub container_mount_home: bool,
    pub container_env: StrMap,
    pub container_entrypoint: String,
    pub container_remap_root: bool,
    pub burst_buffer: String,
    pub srun_job: bool,
    pub begin_time: Option<WireTimestamp>,
    pub deadline: Option<WireTimestamp>,
    pub spread_job: bool,
    pub topology: String,
    pub host_network: bool,
    pub privileged: bool,
    pub host_ipc: bool,
    pub shm_size: String,
    pub extra_resources: StrMap,
    pub open_mode: String,
    pub pty: bool,
    pub licenses: Vec<String>,
    pub mail_type: Vec<String>,
    pub mail_user: String,
    pub interactive: bool,
    pub initial_winsize: Option<WindowSize>,
}

/// What a [`WireJobSpec`] holds.
#[verifier::ext_equal]
pub struct WireJobSpecView {
    pub name: Seq<char>,
    pub partition: Seq<char>,
    pub account: Seq<char>,
    pub user: Seq<char>,
    pub uid: u32,
    pub gid: u32,
    pub num_nodes: u32,
    pub num_tasks: u32,
    pub tasks_per_node: u32,
    pub cpus_per_task: u32,
    pub memory_per_node_mb: u64,
    pub memory_per_cpu_mb: u64,
    pub gres: Seq<Seq<char>>,
    pub gpus: Option<GpuRequestView>,
    pub gpus_per_node: Option<GpuRequestView>,
    pub gpus_per_task: Option<GpuRequestView>,
    pub script: Seq<char>,
    pub argv: Seq<Seq<char>>,
    pub script_args: Seq<Seq<char>>,
    pub work_dir: Seq<char>,
    pub stdout_path: Seq<char>,
    pub stderr_path: Seq<char>,
    pub stdin_path: Seq<char>,
    pub environment: Map<Seq<char>, Seq<char>>,
    pub time_limit: Option<WireDurationView>,
    pub time_min: Option<WireDurationView>,
    pub qos: Seq<char>,
    pub priority: u32,
    pub reservation: Seq<char>,
    pub dependency: Seq<Seq<char>>,
    pub nodelist: Seq<char>,
    pub exclude: Seq<char>,
    pub constraint: Seq<char>,
    pub mpi: Seq<char>,
    pub distribution: Seq<char>,
    pub het_group: u32,
    pub array_spec: Seq<char>,
    pub requeue: bool,
    pub exclusive: bool,
    pub hold: bool,
    pub comment: Seq<char>,
    pub wckey: Seq<char>,
    pub container_image: Seq<char>,
    pub container_mounts: Seq<Seq<char>>,
    pub container_workdir: Seq<char>,
    pub container_name: Seq<char>,
    pub container_readonly: bool,
    pub container_mount_home: bool,
    pub container_env: Map<Seq<char>, Seq<char>>,
    pub container_entrypoint: Seq<char>,
    pub container_remap_root: bool,
    pub burst_buffer: Seq<char>,
    pub srun_job: bool,
    pub begin_time: Option<WireTimestampView>,
    pub deadline: Option<WireTimestampView>,
    pub spread_job: bool,
    pub topology: Seq<char>,
    pub host_network: bool,
    pub privileged: bool,
    pub host_ipc: bool,
    pub shm_size: Seq<char>,
    pub extra_resources: Map<Seq<char>, Seq<char>>,
    pub open_mode: Seq<char>,
    pub pty: bool,
    pub licenses: Seq<Seq<char>>,
    pub mail_type: Seq<Seq<char>>,
    pub mail_user: Seq<char>,
    pub interactive: bool,
    pub initial_winsize: Option<WindowSizeView>,
}

impl View for WireJobSpec {
    type V = WireJobSpecView;

    open spec fn view(&self) -> WireJobSpecView {
        WireJobSpecView {
            name: self.name.deep_view(),
            partition: self.partition.deep_view(),
            account: self.account.deep_view(),
            user: self.user.deep_view(),
            uid: self.uid.deep_view(),
            gid: self.gid.deep_view(),
            num_nodes: self.num_nodes.deep_view(),
            num_tasks: self.num_tasks.deep_view(),
            tasks_per_node: self.tasks_per_node.deep_view(),
            cpus_per_task: self.cpus_per_task.deep_view(),
            memory_per_node_mb: self.memory_per_node_mb.deep_view(),
            memory_per_cpu_mb: self.memory_per_cpu_mb.deep_view(),
            gres: self.gres.deep_view(),
            gpus: self.gpus.deep_view(),
            gpus_per_node: self.gpus_per_node.deep_view(),
            gpus_per_task: self.gpus_per_task.deep_view(),
            script: self.script.deep_view(),
            argv: self.argv.deep_view(),
            script_args: self.script_args.deep_view(),
            work_dir: self.work_dir.deep_view(),
            stdout_path: self.stdout_path.deep_view(),
            stderr_path: self.stderr_path.deep_view(),
            stdin_path: self.stdin_path.deep_view(),
            environment: self.environment.deep_view(),
            time_limit: self.time_limit.deep_view(),
            time_min: self.time_min.deep_view(),
            qos: self.qos.deep_view(),
            priority: self.priority.deep_view(),
            reservation: self.reservation.deep_view(),
            dependency: self.dependency.deep_view(),
            nodelist: self.nodelist.deep_view(),
            exclude: self.exclude.deep_view(),
            constraint: self.constraint.deep_view(),
            mpi: self.mpi.deep_view(),
            distribution: self.distribution.deep_view(),
            het_group: self.het_group.deep_view(),
            array_spec: self.array_spec.deep_view(),
            requeue: self.requeue.deep_view(),
            exclusive: self.exclusive.deep_view(),
            hold: self.hold.deep_view(),
            comment: self.comment.deep_view(),
            wckey: self.wckey.deep_view(),
            container_image: self.container_image.deep_view(),
            container_mounts: self.container_mounts.deep_view(),
            container_workdir: self.container_workdir.deep_view(),
            container_name: self.container_name.deep_view(),
            container_readonly: self.container_readonly.deep_view(),
            container_mount_home: self.container_mount_home.deep_view(),
            container_env: self.container_env.deep_view(),
            container_entrypoint: self.container_entrypoint.deep_view(),
            container_remap_root: self.container_remap_root.deep_view(),
            burst_buffer: self.burst_buffer.deep_view(),
            srun_job: self.srun_job.deep_view(),
            begin_time: self.begin_time.deep_view(),
            deadline: self.deadline.deep_view(),
            spread_job: self.spread_job.deep_view(),
            topology: self.topology.deep_view(),
            host_network: self.host_network.deep_view(),
            privileged: self.privileged.deep_view(),
            host_ipc: self.host_ipc.deep_view(),
            shm_size: self.shm_size.deep_view(),
            extra_resources: self.extra_resources.deep_view(),
            open_mode: self.open_mode.deep_view(),
            pty: self.pty.deep_view(),
            licenses: self.licenses.deep_view(),
            mail_type: self.mail_type.deep_view(),
            mail_user: self.mail_user.deep_view(),
            interactive: self.interactive.deep_view(),
            initial_winsize: self.initial_winsize.deep_view(),
        }
    }
}

impl DeepView for WireJobSpec {
    type V = WireJobSpecView;

    open spec fn deep_view(&self) -> WireJobSpecView {
        self@
    }
}

/// Asks the controller to run a job.
#[derive(Clone, Debug, Default)]
pub struct SubmitJobRequest {
    pub spec: Option<WireJobSpec>,
    pub submission_token: String,
}

/// What a [`SubmitJobRequest`] holds.
#[verifier::ext_equal]
pub struct SubmitJobRequestView {
    pub spec: Option<WireJobSpecView>,
    pub submission_token: Seq<char>,
}

impl View for SubmitJobRequest {
    type V = SubmitJobRequestView;

    open spec fn view(&self) -> SubmitJobRequestView {
        SubmitJobRequestView {
            spec: self.spec.deep_view(),
            submission_token: self.submission_token.deep_view(),
        }
    }
}

impl DeepView for SubmitJobRequest {
    type V = SubmitJobRequestView;

    open spec fn deep_view(&self) -> SubmitJobRequestView {
        self@
    }
}

/// What the controller knows of a job.
#[derive(Clone, Debug, Default)]
pub struct JobInfo {
    pub job_id: u32,
    pub state: i32,
    pub run_attempt: u32,
    pub submission_generation: String,
    pub submission_token: String,
    pub nodelist: String,
}

/// What a [`JobInfo`] holds.
#[verifier::ext_equal]
pub struct JobInfoView {
    pub job_id: u32,
    pub state: i32,
    pub run_attempt: u32,
    pub submission_generation: Seq<char>,
    pub submission_token: Seq<char>,
    pub nodelist: Seq<char>,
}

impl View for JobInfo {
    type V = JobInfoView;

    open spec fn view(&self) -> JobInfoView {
        JobInfoView {
            job_id: self.job_id.deep_view(),
            state: self.state.deep_view(),
            run_attempt: self.run_attempt.deep_view(),
            submission_generation: self.submission_generation.deep_view(),
            submission_token: self.submission_token.deep_view(),
            nodelist: self.nodelist.deep_view(),
        }
    }
}

impl DeepView for JobInfo {
    type V = JobInfoView;

    open spec fn deep_view(&self) -> JobInfoView {
        self@
    }
}

impl Plain for JobInfo {
    fn equals(&self, other: &Self) -> (same: bool) {
        self.job_id.equals(&other.job_id)
            && self.state.equals(&other.state)
            && self.run_attempt.equals(&other.run_attempt)
            && self.submission_generation.equals(&other.submission_generation)
            && self.submission_token.equals(&other.submission_token)
            && self.nodelist.equals(&other.nodelist)
    }

    fn copy_of(&self) -> (out: Self) {
        JobInfo {
            job_id: self.job_id.copy_of(),
            state: self.state.copy_of(),
            run_attempt: self.run_attempt.copy_of(),
            submission_generation: self.submission_generation.copy_of(),
            submission_token: self.submission_token.copy_of(),
            nodelist: self.nodelist.copy_of(),
        }
    }
}

/// Tells the controller how an execution ended on a node.
#[derive(Clone, Debug, Default)]
pub struct ReportJobStatusRequest {
    pub job_id: u32,
    pub state: i32,
    pub exit_code: i32,
    pub signal: i32,
    pub message: String,
    pub drain_node: bool,
    pub drain_reason: String,
    pub reporting_node: String,
    pub run_attempt: u32,
    pub submission_generation: String,
    pub worker_incarnation: String,
    pub submission_token: String,
}

/// What a [`ReportJobStatusRequest`] holds.
#[verifier::ext_equal]
pub struct ReportJobStatusRequestView {
    pub job_id: u32,
    pub state: i32,
    pub exit_code: i32,
    pub signal: i32,
    pub message: Seq<char>,
    pub drain_node: bool,
    pub drain_reason: Seq<char>,
    pub reporting_node: Seq<char>,
    pub run_attempt: u32,
    pub submission_generation: Seq<char>,
    pub worker_incarnation: Seq<char>,
    pub submission_token: Seq<char>,
}

impl View for ReportJobStatusRequest {
    type V = ReportJobStatusRequestView;

    open spec fn view(&self) -> ReportJobStatusRequestView {
        ReportJobStatusRequestView {
            job_id: self.job_id.deep_view(),
            state: self.state.deep_view(),
            exit_code: self.exit_code.deep_view(),
            signal: self.signal.deep_view(),
            message: self.message.deep_view(),
            drain_node: self.drain_node.deep_view(),
            drain_reason: self.drain_reason.deep_view(),
            reporting_node: self.reporting_node.deep_view(),
            run_attempt: self.run_attempt.deep_view(),
            submission_generation: self.submission_generation.deep_view(),
            worker_incarnation: self.worker_incarnation.deep_view(),
            submission_token: self.submission_token.deep_view(),
        }
    }
}

impl DeepView for ReportJobStatusRequest {
    type V = ReportJobStatusRequestView;

    open spec fn deep_view(&self) -> ReportJobStatusRequestView {
        self@
    }
}

impl Plain for ReportJobStatusRequest {
    fn equals(&self, other: &Self) -> (same: bool) {
        self.job_id.equals(&other.job_id)
            && self.state.equals(&other.state)
            && self.exit_code.equals(&other.exit_code)
            && self.signal.equals(&other.signal)
            && self.message.equals(&other.message)
            && self.drain_node.equals(&other.drain_node)
            && self.drain_reason.equals(&other.drain_reason)
            && self.reporting_node.equals(&other.reporting_node)
            && self.run_attempt.equals(&other.run_attempt)
            && self.submission_generation.equals(&other.submission_generation)
            && self.worker_incarnation.equals(&other.worker_incarnation)
            && self.submission_token.equals(&other.submission_token)
    }

    fn copy_of(&self) -> (out: Self) {
        ReportJobStatusRequest {
            job_id: self.job_id.copy_of(),
            state: self.state.copy_of(),
            exit_code: self.exit_code.copy_of(),
            signal: self.signal.copy_of(),
            message: self.message.copy_of(),
            drain_node: self.drain_node.copy_of(),
            drain_reason: self.drain_reason.copy_of(),
            reporting_node: self.reporting_node.copy_of(),
            run_attempt: self.run_attempt.copy_of(),
            submission_generation: self.submission_generation.copy_of(),
            worker_incarnation: self.worker_incarnation.copy_of(),
            submission_token: self.submission_token.copy_of(),
        }
    }
}

/// What a node gives to a job.
#[derive(Clone, Debug, Default)]
pub struct ResourceAllocation {
    pub cpus: u32,
    pub memory_mb: u64,
    /// How many GPU devices.
    pub gpus: u32,
}

/// What a [`ResourceAllocation`] holds.
#[verifier::ext_equal]
pub struct ResourceAllocationView {
    pub cpus: u32,
    pub memory_mb: u64,
    pub gpus: u32,
}

impl View for ResourceAllocation {
    type V = ResourceAllocationView;

    open spec fn view(&self) -> ResourceAllocationView {
        ResourceAllocationView {
            cpus: self.cpus.deep_view(),
            memory_mb: self.memory_mb.deep_view(),
            gpus: self.gpus.deep_view(),
        }
    }
}

impl DeepView for ResourceAllocation {
    type V = ResourceAllocationView;

    open spec fn deep_view(&self) -> ResourceAllocationView {
        self@
    }
}

impl Plain for ResourceAllocation {
    fn equals(&self, other: &Self) -> (same: bool) {
        self.cpus.equals(&other.cpus)
            && self.memory_mb.equals(&other.memory_mb)
            && self.gpus.equals(&other.gpus)
    }

    fn copy_of(&self) -> (out: Self) {
        ResourceAllocation {
            cpus: self.cpus.copy_of(),
            memory_mb: self.memory_mb.copy_of(),
            gpus: self.gpus.copy_of(),
        }
    }
}

/// Asks an agent to start an execution.
#[derive(Clone, Debug, Default)]
pub struct LaunchJobRequest {
    pub job_id: u32,
    pub submission_generation: String,
    pub run_attempt: u32,
    pub worker_incarnation: String,
    pub submission_token: String,
    pub target_node: String,
    pub peer_nodes: Vec<String>,
    pub task_offset: u32,
    pub spec: Option<WireJobSpec>,
    pub allocated: Option<ResourceAllocation>,
}

/// What a [`LaunchJobRequest`] holds.
#[verifier::ext_equal]
pub struct LaunchJobRequestView {
    pub job_id: u32,
    pub submission_generation: Seq<char>,
    pub run_attempt: u32,
    pub worker_incarnation: Seq<char>,
    pub submission_token: Seq<char>,
    pub target_node: Seq<char>,
    pub peer_nodes: Seq<Seq<char>>,
    pub task_offset: u32,
    pub spec: Option<WireJobSpecView>,
    pub allocated: Option<ResourceAllocationView>,
}

impl View for LaunchJobRequest {
    type V = LaunchJobRequestView;

    open spec fn view(&self) -> LaunchJobRequestView {
        LaunchJobRequestView {
            job_id: self.job_id.deep_view(),
            submission_generation: self.submission_generation.deep_view(),
            run_attempt: self.run_attempt.deep_view(),
            worker_incarnation: self.worker_incarnation.deep_view(),
            submission_token: self.submission_token.deep_view(),
            target_node: self.target_node.deep_view(),
            peer_nodes: self.peer_nodes.deep_view(),
            task_offset: self.task_offset.deep_view(),
            spec: self.spec.deep_view(),
            allocated: self.allocated.deep_view(),
        }
    }
}

impl DeepView for LaunchJobRequest {
    type V = LaunchJobRequestView;

    open spec fn deep_view(&self) -> LaunchJobRequestView {
        self@
    }
}

/// Whether an execution was started.
#[derive(Clone, Debug, Default)]
pub struct LaunchJobResponse {
    pub success: bool,
    pub error: String,
}

/// What a [`LaunchJobResponse`] holds.
#[verifier::ext_equal]
pub struct LaunchJobResponseView {
    pub success: bool,
    pub error: Seq<char>,
}

impl View for LaunchJobResponse {
    type V = LaunchJobResponseView;

    open spec fn view(&self) -> LaunchJobResponseView {
        LaunchJobResponseView {
            success: self.success.deep_view(),
            error: self.error.deep_view(),
        }
    }
}

impl DeepView for LaunchJobResponse {
    type V = LaunchJobResponseView;

    open spec fn deep_view(&self) -> LaunchJobResponseView {
        self@
    }
}

impl Plain for LaunchJobResponse {
    fn equals(&self, other: &Self) -> (same: bool) {
        self.success.equals(&other.success)
            && self.error.equals(&other.error)
    }

    fn copy_of(&self) -> (out: Self) {
        LaunchJobResponse {
            success: self.success.copy_of(),
            error: self.error.copy_of(),
        }
    }
}

/// What the controller found under a submission token.
#[derive(Clone, Debug, Default)]
pub struct CancelByTokenResponse {
    pub job_id: u32,
    pub submission_generation: String,
    pub cleanup_complete: bool,
}

/// What a [`CancelByTokenResponse`] holds.
#[verifier::ext_equal]
pub struct CancelByTokenResponseView {
    pub job_id: u32,
    pub submission_generation: Seq<char>,
    pub cleanup_complete: bool,
}

impl View for CancelByTokenResponse {
    type V = CancelByTokenResponseView;

    open spec fn view(&self) -> CancelByTokenResponseView {
        CancelByTokenResponseView {
            job_id: self.job_id.deep_view(),
            submission_generation: self.submission_generation.deep_view(),
            cleanup_complete: self.cleanup_complete.deep_view(),
        }
    }
}

impl DeepView for CancelByTokenResponse {
    type V = CancelByTokenResponseView;

    open spec fn deep_view(&self) -> CancelByTokenResponseView {
        self@
    }
}

impl Plain for CancelByTokenResponse {
    fn equals(&self, other: &Self) -> (same: bool) {
        self.job_id.equals(&other.job_id)
            && self.submission_generation.equals(&other.submission_generation)
            && self.cleanup_complete.equals(&other.cleanup_complete)
    }

    fn copy_of(&self) -> (out: Self) {
        CancelByTokenResponse {
            job_id: self.job_id.copy_of(),
            submission_generation: self.submission_generation.copy_of(),
            cleanup_complete: self.cleanup_complete.copy_of(),
        }
    }
}

/// A length of time on the wire, in whole seconds.
pub open spec fn wire_duration(span: Option<TimeSpan>) -> Option<WireDurationView> {
    match span {
        Some(s) => Some(WireDurationView { seconds: s.whole_seconds() as i64, nanos: 0 }),
        None => None,
    }
}

/// A point in time on the wire.
pub open spec fn wire_timestamp(at: Option<Instant>) -> Option<WireTimestampView> {
    match at {
        Some(t) => Some(WireTimestampView { seconds: t.secs, nanos: t.nanos as i32 }),
        None => None,
    }
}

impl JobSpecView {
    /// Whether the times that the job asks for can be reckoned with.
    pub open spec fn wf(self) -> bool {
        &&& self.time_limit matches Some(span) ==> span.wf()
        &&& self.time_min matches Some(span) ==> span.wf()
        &&& self.begin_time matches Some(at) ==> at.wf()
        &&& self.deadline matches Some(at) ==> at.wf()
    }
}

/// What a job asks for, on the wire. Priority zero stands for no priority.
pub open spec fn wire_job_spec(spec: JobSpecView) -> WireJobSpecView {
    WireJobSpecView {
        name: spec.name,
        partition: or_empty(spec.partition),
        account: or_empty(spec.account),
        user: spec.user,
        uid: spec.uid,
        gid: spec.gid,
        num_nodes: spec.num_nodes,
        num_tasks: spec.num_tasks,
        tasks_per_node: match spec.tasks_per_node {
            Some(v) => v,
            None => 0,
        },
        cpus_per_task: spec.cpus_per_task,
        memory_per_node_mb: match spec.memory_per_node_mb {
            Some(v) => v,
            None => 0,
        },
        memory_per_cpu_mb: match spec.memory_per_cpu_mb {
            Some(v) => v,
            None => 0,
        },
        gres: spec.gres,
        gpus: spec.gpus,
        gpus_per_node: spec.gpus_per_node,
        gpus_per_task: spec.gpus_per_task,
        script: or_empty(spec.script),
        argv: spec.argv,
        script_args: spec.script_args,
        work_dir: spec.work_dir,
        stdout_path: or_empty(spec.stdout_path),
        stderr_path: or_empty(spec.stderr_path),
        stdin_path: or_empty(spec.stdin_path),
        environment: spec.environment,
        time_limit: wire_duration(spec.time_limit),
        time_min: wire_duration(spec.time_min),
        qos: or_empty(spec.qos),
        priority: match spec.priority {
            Some(v) => v,
            None => 0,
        },
        reservation: or_empty(spec.reservation),
        dependency: spec.dependency,
        nodelist: or_empty(spec.nodelist),
        exclude: or_empty(spec.exclude),
        constraint: or_empty(spec.constraint),
        mpi: or_empty(spec.mpi),
        distribution: or_empty(spec.distribution),
        het_group: match spec.het_group {
            Some(v) => v,
            None => 0,
        },
        array_spec: or_empty(spec.array_spec),
        requeue: spec.requeue,
        exclusive: spec.exclusive,
        hold: spec.hold,
        comment: or_empty(spec.comment),
        wckey: or_empty(spec.wckey),
        container_image: or_empty(spec.container_image),
        container_mounts: spec.container_mounts,
        container_workdir: or_empty(spec.container_workdir),
        container_name: or_empty(spec.container_name),
        container_readonly: spec.container_readonly,
        container_mount_home: spec.container_mount_home,
        container_env: spec.container_env,
        container_entrypoint: or_empty(spec.container_entrypoint),
        container_remap_root: spec.container_remap_root,
        burst_buffer: or_empty(spec.burst_buffer),
        srun_job: spec.srun_job,
        begin_time: wire_timestamp(spec.begin_time),
        deadline: wire_timestamp(spec.deadline),
        spread_job: spec.spread_job,
        topology: or_empty(spec.topology),
        host_network: spec.host_network,
        privileged: spec.privileged,
        host_ipc: spec.host_ipc,
        shm_size: or_empty(spec.shm_size),
        extra_resources: spec.extra_resources,
        open_mode: or_empty(spec.open_mode),
        pty: spec.pty,
        licenses: Seq::empty(),
        mail_type: Seq::empty(),
        mail_user: Seq::empty(),
        interactive: false,
        initial_winsize: None,
    }
}

fn text_or_default(value: &Option<String>) -> (out: String)
    ensures
        out@ == or_empty(value.deep_view()),
{
    match value {
        Some(v) => v.clone(),
        None => String::new(),
    }
}

fn duration_to_wire(span: Option<TimeSpan>) -> (out: Option<WireDuration>)
    requires
        span matches Some(s) ==> s.wf(),
    ensures
        out.deep_view() == wire_duration(span),
{
    match span {
        Some(s) => Some(WireDuration { seconds: num_seconds(s), nanos: 0 }),
        None => None,
    }
}

fn timestamp_to_wire(at: Option<Instant>) -> (out: Option<WireTimestamp>)
    requires
        at matches Some(t) ==> t.wf(),
    ensures
        out.deep_view() == wire_timestamp(at),
{
    match at {
        Some(t) => Some(WireTimestamp { seconds: t.secs, nanos: t.nanos as i32 }),
        None => None,
    }
}

fn no_texts() -> (out: Vec<String>)
    ensures
        out.deep_view() == Seq::<Seq<char>>::empty(),
{
    let out: Vec<String> = Vec::new();
    proof {
        assert(out.deep_view() =~= Seq::<Seq<char>>::empty());
    }
    out
}

/// What a job asks for, on the wire.
pub fn core_job_spec_to_proto(spec: &JobSpec) -> (out: WireJobSpec)
    requires
        spec@.wf(),
    ensures
        out@ == wire_job_spec(spec@),
{
    WireJobSpec {
        name: spec.name.copy_of(),
        partition: text_or_default(&spec.partition),
        account: text_or_default(&spec.account),
        user: spec.user.copy_of(),
        uid: spec.uid,
        gid: spec.gid,
        num_nodes: spec.num_nodes,
        num_tasks: spec.num_tasks,
        tasks_per_node: spec.tasks_per_node.unwrap_or(0),
        cpus_per_task: spec.cpus_per_task,
        memory_per_node_mb: spec.memory_per_node_mb.unwrap_or(0),
        memory_per_cpu_mb: spec.memory_per_cpu_mb.unwrap_or(0),
        gres: spec.gres.copy_of(),
        gpus: spec.gpus.copy_of(),
        gpus_per_node: spec.gpus_per_node.copy_of(),
        gpus_per_task: spec.gpus_per_task.copy_of(),
        script: text_or_default(&spec.script),
        argv: spec.argv.copy_of(),
        script_args: spec.script_args.copy_of(),
        work_dir: spec.work_dir.copy_of(),
        stdout_path: text_or_default(&spec.stdout_path),
        stderr_path: text_or_default(&spec.stderr_path),
        stdin_path: text_or_default(&spec.stdin_path),
        environment: spec.environment.copy_of(),
        time_limit: duration_to_wire(spec.time_limit),
        time_min: duration_to_wire(spec.time_min),
        qos: text_or_default(&spec.qos),
        priority: spec.priority.unwrap_or(0),
        reservation: text_or_default(&spec.reservation),
        dependency: spec.dependency.copy_of(),
        nodelist: text_or_default(&spec.nodelist),
        exclude: text_or_default(&spec.exclude),
        constraint: text_or_default(&spec.constraint),
        mpi: text_or_default(&spec.mpi),
        distribution: text_or_default(&spec.distribution),
        het_group: spec.het_group.unwrap_or(0),
        array_spec: text_or_default(&spec.array_spec),
        requeue: spec.requeue,
        exclusive: spec.exclusive,
        hold: spec.hold,
        comment: text_or_default(&spec.comment),
        wckey: text_or_default(&spec.wckey),
        container_image: text_or_default(&spec.container_image),
        container_mounts: spec.container_mounts.copy_of(),
        container_workdir: text_or_default(&spec.container_workdir),
        container_name: text_or_default(&spec.container_name),
        container_readonly: spec.container_readonly,
        container_mount_home: spec.container_mount_home,
        container_env: spec.container_env.copy_of(),
        container_entrypoint: text_or_default(&spec.container_entrypoint),
        container_remap_root: spec.container_remap_root,
        burst_buffer: text_or_default(&spec.burst_buffer),
        srun_job: spec.srun_job,
        begin_time: timestamp_to_wire(spec.begin_time),
        deadline: timestamp_to_wire(spec.deadline),
        spread_job: spec.spread_job,
        topology: text_or_default(&spec.topology),
        host_network: spec.host_network,
        privileged: spec.privileged,
        host_ipc: spec.host_ipc,
        shm_size: text_or_default(&spec.shm_size),
        extra_resources: spec.extra_resources.copy_of(),
        open_mode: text_or_default(&spec.open_mode),
        pty: spec.pty,
        licenses: no_texts(),
        mail_type: no_texts(),
        mail_user: String::new(),
        interactive: false,
        initial_winsize: None,
    }
}

/// Asks the controller to run a job under a submission token.
pub fn submit_request_for_job(spec: &JobSpec, submission_token: String) -> (out: SubmitJobRequest)
    requires
        spec@.wf(),
    ensures
        out@ == (SubmitJobRequestView {
            spec: Some(wire_job_spec(spec@)),
            submission_token: submission_token@,
        }),
{
    SubmitJobRequest { spec: Some(core_job_spec_to_proto(spec)), submission_token }
}

/// A partition that is not given and an empty one are the same on the wire, and
/// so are no priority and priority zero.
pub proof fn law_absent_is_empty_on_the_wire(a: JobSpecView, b: JobSpecView)
    requires
        a.partition is None,
        a.priority is None,
        b == (JobSpecView { partition: Some(Seq::empty()), priority: Some(0), ..a }),
    ensures
        wire_job_spec(a) == wire_job_spec(b),
{
}

/// What a job is and does goes to the controller as it was said: whose it is, what
/// it runs, on what terms and when. Nothing that was said is lost, and what was not
/// said is empty.
pub proof fn law_sent_job_is_the_job(spec: JobSpecView)
    requires
        spec.wf(),
    ensures
        ({
            let sent = wire_job_spec(spec);
            &&& sent.name == spec.name
            &&& spec.partition is Some ==> sent.partition == spec.partition->0
            &&& spec.partition is None ==> sent.partition.len() == 0
            &&& spec.account is Some ==> sent.account == spec.account->0
            &&& spec.account is None ==> sent.account.len() == 0
            &&& sent.user == spec.user
            &&& sent.uid == spec.uid
            &&& sent.gid == spec.gid
            &&& spec.script is Some ==> sent.script == spec.script->0
            &&& spec.script is None ==> sent.script.len() == 0
            &&& sent.argv == spec.argv
            &&& sent.script_args == spec.script_args
            &&& sent.work_dir == spec.work_dir
            &&& spec.stdout_path is Some ==> sent.stdout_path == spec.stdout_path->0
            &&& spec.stdout_path is None ==> sent.stdout_path.len() == 0
            &&& spec.stderr_path is Some ==> sent.stderr_path == spec.stderr_path->0
            &&& spec.stderr_path is None ==> sent.stderr_path.len() == 0
            &&& spec.stdin_path is Some ==> sent.stdin_path == spec.stdin_path->0
            &&& spec.stdin_path is None ==> sent.stdin_path.len() == 0
            &&& sent.environment == spec.environment
            &&& sent.time_limit is Some <==> spec.time_limit is Some
            &&& spec.time_limit is Some ==> (sent.time_limit->0).seconds == (
            spec.time_limit->0).whole_seconds() && (sent.time_limit->0).nanos == 0
            &&& sent.time_min is Some <==> spec.time_min is Some
            &&& spec.time_min is Some ==> (sent.time_min->0).seconds == (
            spec.time_min->0).whole_seconds() && (sent.time_min->0).nanos == 0
            &&& spec.qos is Some ==> sent.qos == spec.qos->0
            &&& spec.qos is None ==> sent.qos.len() == 0
            &&& spec.priority is Some ==> sent.priority == spec.priority->0
            &&& spec.priority is None ==> sent.priority == 0
            &&& spec.reservation is Some ==> sent.reservation == spec.reservation->0
            &&& spec.reservation is None ==> sent.reservation.len() == 0
            &&& sent.dependency == spec.dependency
            &&& sent.requeue == spec.requeue
            &&& sent.hold == spec.hold
            &&& spec.comment is Some ==> sent.comment == spec.comment->0
            &&& spec.comment is None ==> sent.comment.len() == 0
            &&& spec.wckey is Some ==> sent.wckey == spec.wckey->0
            &&& spec.wckey is None ==> sent.wckey.len() == 0
            &&& sent.srun_job == spec.srun_job
            &&& sent.begin_time is Some <==> spec.begin_time is Some
            &&& spec.begin_time is Some ==> (sent.begin_time->0).seconds == (spec.begin_time->0).secs && (
            sent.begin_time->0).nanos == (spec.begin_time->0).nanos
            &&& sent.deadline is Some <==> spec.deadline is Some
            &&& spec.deadline is Some ==> (sent.deadline->0).seconds == (spec.deadline->0).secs && (
            sent.deadline->0).nanos == (spec.deadline->0).nanos
            &&& spec.open_mode is Some ==> sent.open_mode == spec.open_mode->0
            &&& spec.open_mode is None ==> sent.open_mode.len() == 0
            &&& sent.pty == spec.pty
            &&& sent.licenses.len() == 0
            &&& sent.mail_type.len() == 0
            &&& sent.mail_user.len() == 0
            &&& !sent.interactive
            &&& sent.initial_winsize is None
        }),
{
}

/// What a job asks for goes to the controller as it was asked: how many nodes,
/// tasks, processors and devices, how much memory, and where.
pub proof fn law_sent_job_asks_for_the_same(spec: JobSpecView)
    requires
        spec.wf(),
    ensures
        ({
            let sent = wire_job_spec(spec);
            &&& sent.num_nodes == spec.num_nodes
            &&& sent.num_tasks == spec.num_tasks
            &&& spec.tasks_per_node is Some ==> sent.tasks_per_node == spec.tasks_per_node->0
            &&& spec.tasks_per_node is None ==> sent.tasks_per_node == 0
            &&& sent.cpus_per_task == spec.cpus_per_task
            &&& spec.memory_per_node_mb is Some ==> sent.memory_per_node_mb == spec.memory_per_node_mb->0
            &&& spec.memory_per_node_mb is None ==> sent.memory_per_node_mb == 0
            &&& spec.memory_per_cpu_mb is Some ==> sent.memory_per_cpu_mb == spec.memory_per_cpu_mb->0
            &&& spec.memory_per_cpu_mb is None ==> sent.memory_per_cpu_mb == 0
            &&& sent.gres == spec.gres
            &&& sent.gpus == spec.gpus
            &&& sent.gpus_per_node == spec.gpus_per_node
            &&& sent.gpus_per_task == spec.gpus_per_task
            &&& spec.nodelist is Some ==> sent.nodelist == spec.nodelist->0
            &&& spec.nodelist is None ==> sent.nodelist.len() == 0
            &&& spec.exclude is Some ==> sent.exclude == spec.exclude->0
            &&& spec.exclude is None ==> sent.exclude.len() == 0
            &&& spec.constraint is Some ==> sent.constraint == spec.constraint->0
            &&& spec.constraint is None ==> sent.constraint.len() == 0
            &&& spec.mpi is Some ==> sent.mpi == spec.mpi->0
            &&& spec.mpi is None ==> sent.mpi.len() == 0
            &&& spec.distribution is Some ==> sent.distribution == spec.distribution->0
            &&& spec.distribution is None ==> sent.distribution.len() == 0
            &&& spec.het_group is Some ==> sent.het_group == spec.het_group->0
            &&& spec.het_group is None ==> sent.het_group == 0
            &&& spec.array_spec is Some ==> sent.array_spec == spec.array_spec->0
            &&& spec.array_spec is None ==> sent.array_spec.len() == 0
            &&& sent.exclusive == spec.exclusive
            &&& sent.spread_job == spec.spread_job
            &&& spec.topology is Some ==> sent.topology == spec.topology->0
            &&& spec.topology is None ==> sent.topology.len() == 0
        }),
{
}

/// How a job is to be contained goes to the controller as it was said.
pub proof fn law_sent_job_is_contained_the_same(spec: JobSpecView)
    requires
        spec.wf(),
    ensures
        ({
            let sent = wire_job_spec(spec);
            &&& spec.container_image is Some ==> sent.container_image == spec.container_image->0
            &&& spec.container_image is None ==> sent.container_image.len() == 0
            &&& sent.container_mounts == spec.container_mounts
            &&& spec.container_workdir is Some ==> sent.container_workdir == spec.container_workdir->0
            &&& spec.container_workdir is None ==> sent.container_workdir.len() == 0
            &&& spec.container_name is Some ==> sent.container_name == spec.container_name->0
            &&& spec.container_name is None ==> sent.container_name.len() == 0
            &&& sent.container_readonly == spec.container_readonly
            &&& sent.container_mount_home == spec.container_mount_home
            &&& sent.container_env == spec.container_env
            &&& spec.container_entrypoint is Some ==> sent.container_entrypoint == spec.container_entrypoint->0
            &&& spec.container_entrypoint is None ==> sent.container_entrypoint.len() == 0
            &&& sent.container_remap_root == spec.container_remap_root
            &&& spec.burst_buffer is Some ==> sent.burst_buffer == spec.burst_buffer->0
            &&& spec.burst_buffer is None ==> sent.burst_buffer.len() == 0
            &&& sent.host_network == spec.host_network
            &&& sent.privileged == spec.privileged
            &&& sent.host_ipc == spec.host_ipc
            &&& spec.shm_size is Some ==> sent.shm_size == spec.shm_size->0
            &&& spec.shm_size is None ==> sent.shm_size.len() == 0
            &&& sent.extra_resources == spec.extra_resources
        }),
{
}

} // verus!
