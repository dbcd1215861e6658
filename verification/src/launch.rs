//! Starting an execution: the pod that runs it and the service that its peers
//! find each other by.

use vstd::prelude::*;
use crate::control::{controlled_by, owner_reference, owner_reference_of, resource_has_controller_owner};
use crate::crd::{SpurJob, SpurJobView};
use crate::desired::{pod_agrees, pod_matches_desired, service_agrees, service_matches_desired};
use crate::envvars::{
    append_map, append_secrets, append_var, law_order_is_determined, lemma_named_concat,
    lemma_named_none, map_named, named, ordered_by_name, plain_env, plain_var,
    secret_named, sort_by_name,
};
use crate::execution_identity::{
    get_opt, holds, is_blank, launched_identity, lookup, lookup_opt,
    JobExecutionKeyView, PodExecutionIdentity, PodExecutionIdentityView,
    SERVICE_DISPATCH_TOKEN_ANNOTATION,
};
use crate::gpu::{asks_for_nvidia, is_nvidia_gpu, vendor_resource};
use crate::k8s::{
    Container, ContainerView, EmptyDirVolume, EmptyDirVolumeView, EnvVar, EnvVarView, ObjectMeta,
    ObjectMetaView, OwnerReference, OwnerReferenceView, Pod, PodSpec, PodSpecView, PodView,
    ResourceRequirements, ResourceRequirementsView, SecurityContext, SecurityContextView, Service,
    ServicePort, ServicePortView, ServiceSpec, ServiceSpecView, ServiceView, Volume, VolumeMount,
    VolumeMountView, VolumeView,
};
use crate::mounts::{bare_volume, parse_mounts, volume_mounts_of, volumes_of};
use crate::naming::{
    execution_pod_hostname, execution_pod_name, execution_rank_zero_dns_name,
    execution_service_name, label_of_name, lowercase, name_of_lowered, pod_hostname, pod_name_on,
    rank_zero_dns_name, sanitize_k8s_label_value, service_name,
};
use crate::plain::Plain;
use crate::status::{outcome_view, refusal, Code, Status, StatusView};
use crate::strmap::StrMap;
use crate::text::{
    chars_of, decimal, has_prefix, join2, join3, join_all, joined, starts_with_text, text_of,
    u32_text, u64_text,
};
use crate::wire::{
    LaunchJobRequest, LaunchJobRequestView, LaunchJobResponse, LaunchJobResponseView,
    ResourceAllocationView, WireJobSpec, WireJobSpecView,
};

verus! {

/// What a launch has settled before anything is created.
#[derive(Clone, Debug, Default)]
pub struct LaunchPlan {
    pub identity: PodExecutionIdentity,
    pub namespace: String,
    pub owner_reference: OwnerReference,
    pub pod_name: String,
    /// The service of the peers, where there is more than one.
    pub service_name: Option<String>,
}

/// What a [`LaunchPlan`] holds.
#[verifier::ext_equal]
pub struct LaunchPlanView {
    pub identity: PodExecutionIdentityView,
    pub namespace: Seq<char>,
    pub owner_reference: OwnerReferenceView,
    pub pod_name: Seq<char>,
    pub service_name: Option<Seq<char>>,
}

impl View for LaunchPlan {
    type V = LaunchPlanView;

    open spec fn view(&self) -> LaunchPlanView {
        LaunchPlanView {
            identity: self.identity.deep_view(),
            namespace: self.namespace.deep_view(),
            owner_reference: self.owner_reference.deep_view(),
            pod_name: self.pod_name.deep_view(),
            service_name: self.service_name.deep_view(),
        }
    }
}

impl DeepView for LaunchPlan {
    type V = LaunchPlanView;

    open spec fn deep_view(&self) -> LaunchPlanView {
        self@
    }
}

impl Plain for LaunchPlan {
    fn equals(&self, other: &Self) -> (same: bool) {
        self.identity.equals(&other.identity)
            && self.namespace.equals(&other.namespace)
            && self.owner_reference.equals(&other.owner_reference)
            && self.pod_name.equals(&other.pod_name)
            && self.service_name.equals(&other.service_name)
    }

    fn copy_of(&self) -> (out: Self) {
        LaunchPlan {
            identity: self.identity.copy_of(),
            namespace: self.namespace.copy_of(),
            owner_reference: self.owner_reference.copy_of(),
            pod_name: self.pod_name.copy_of(),
            service_name: self.service_name.copy_of(),
        }
    }
}

/// The identity that a launch request names.
pub open spec fn launching_identity(req: LaunchJobRequestView) -> Result<
    PodExecutionIdentityView,
    StatusView,
> {
    if req.target_node.len() == 0 {
        Err(refusal(Code::InvalidArgument, "Kubernetes LaunchJob requires target_node"@))
    } else {
        launched_identity(
            req.job_id,
            req.submission_generation,
            req.run_attempt,
            req.worker_incarnation,
            req.submission_token,
        )
    }
}

/// The identity that a launch request names.
pub fn launch_identity(req: &LaunchJobRequest) -> (out: Result<PodExecutionIdentity, Status>)
    ensures
        outcome_view(out) == launching_identity(req@),
{
    if is_blank(&req.target_node) {
        return Err(Status::new(Code::InvalidArgument, "Kubernetes LaunchJob requires target_node"));
    }
    PodExecutionIdentity::from_launch_request(
        req.job_id,
        req.submission_generation.as_str(),
        req.run_attempt,
        req.worker_incarnation.as_str(),
        req.submission_token.as_str(),
    )
}

/// A check whose failure is a message, by its view.
pub open spec fn check_view(outcome: Result<(), String>) -> Result<(), Seq<char>> {
    match outcome {
        Ok(_) => Ok(()),
        Err(message) => Err(message@),
    }
}

/// A text whose failure is a message, by its view.
pub open spec fn text_view(outcome: Result<String, String>) -> Result<Seq<char>, Seq<char>> {
    match outcome {
        Ok(text) => Ok(text@),
        Err(message) => Err(message@),
    }
}

/// What a launch settles before anything is created, given whether the fields of
/// the job's description may be launched and the fingerprint of that
/// description. A job whose description is not the one that was submitted is
/// refused.
pub open spec fn planned(
    req: LaunchJobRequestView,
    identity: PodExecutionIdentityView,
    job: SpurJobView,
    launchable: Result<(), Seq<char>>,
    fingerprint: Result<Seq<char>, Seq<char>>,
) -> Result<LaunchPlanView, StatusView> {
    match (launchable, fingerprint) {
        (Err(message), _) => Err(refusal(Code::FailedPrecondition, message)),
        (_, Err(message)) => Err(refusal(Code::FailedPrecondition, message)),
        (Ok(_), Ok(digest)) => if !submitted_as(job, digest) {
            Err(
                refusal(
                    Code::FailedPrecondition,
                    "SpurJob spec changed after submission intent was persisted"@,
                ),
            )
        } else {
            match (job.metadata.namespace, owner_reference_of(job)) {
                (None, _) => Err(
                    refusal(Code::FailedPrecondition, "owning SpurJob has no namespace"@),
                ),
                (_, Err(status)) => Err(status),
                (Some(namespace), Ok(owner_reference)) => if req.spec is None {
                    Err(refusal(Code::InvalidArgument, "missing job spec"@))
                } else {
                    Ok(
                        LaunchPlanView {
                            identity,
                            namespace,
                            owner_reference,
                            pod_name: pod_name_on(
                                identity,
                                name_of_lowered(lowercase(req.target_node)),
                            ),
                            service_name: if req.peer_nodes.len() > 1 {
                                Some(service_name(identity.key))
                            } else {
                                None
                            },
                        },
                    )
                },
            }
        },
    }
}

/// Whether the job was submitted with this fingerprint.
pub open spec fn submitted_as(job: SpurJobView, digest: Seq<char>) -> bool {
    match job.status {
        Some(status) => status.launch_spec_sha256 == Some(digest),
        None => false,
    }
}

/// What a launch settles before anything is created.
pub fn plan_launch(
    req: &LaunchJobRequest,
    identity: &PodExecutionIdentity,
    job: &SpurJob,
    launchable: Result<(), String>,
    fingerprint: Result<String, String>,
) -> (out: Result<LaunchPlan, Status>)
    ensures
        outcome_view(out) == planned(
            req@,
            identity@,
            job@,
            check_view(launchable),
            text_view(fingerprint),
        ),
{
    if let Err(message) = launchable {
        return Err(Status { code: Code::FailedPrecondition, message });
    }
    let digest = match fingerprint {
        Err(message) => return Err(Status { code: Code::FailedPrecondition, message }),
        Ok(digest) => digest,
    };
    let unchanged = match &job.status {
        Some(status) => match &status.launch_spec_sha256 {
            Some(persisted) => *persisted == digest,
            None => false,
        },
        None => false,
    };
    if !unchanged {
        return Err(
            Status::new(
                Code::FailedPrecondition,
                "SpurJob spec changed after submission intent was persisted",
            ),
        );
    }
    let namespace = match &job.metadata.namespace {
        None => return Err(
            Status::new(Code::FailedPrecondition, "owning SpurJob has no namespace"),
        ),
        Some(namespace) => namespace.clone(),
    };
    let owner_reference = match owner_reference(job) {
        Err(status) => return Err(status),
        Ok(reference) => reference,
    };
    if req.spec.is_none() {
        return Err(Status::new(Code::InvalidArgument, "missing job spec"));
    }
    let service_name = if req.peer_nodes.len() > 1 {
        Some(execution_service_name(identity))
    } else {
        None
    };
    Ok(
        LaunchPlan {
            identity: identity.copy_of(),
            namespace,
            owner_reference,
            pod_name: execution_pod_name(identity, req.target_node.as_str()),
            service_name,
        },
    )
}

/// How many tasks run on a node.
pub open spec fn node_tasks(spec: WireJobSpecView) -> u32 {
    if spec.tasks_per_node > 1 {
        spec.tasks_per_node
    } else {
        1
    }
}

/// How many CPUs the tasks of a node use together.
pub open spec fn node_cpus(spec: WireJobSpecView) -> int {
    node_tasks(spec) * if spec.cpus_per_task > 1 {
        spec.cpus_per_task
    } else {
        1
    }
}

/// The rank of the node among its peers: the tasks before it, in nodes.
pub open spec fn node_rank(req: LaunchJobRequestView, spec: WireJobSpecView) -> u32 {
    (req.task_offset as int / node_tasks(spec) as int) as u32
}

/// The name of a variable under which programs written for Slurm look for it.
pub open spec fn slurm_twin(name: Seq<char>) -> Seq<char> {
    if starts_with_text(name, "SPUR"@) {
        "SLURM"@ + name.skip(4)
    } else {
        name
    }
}

/// `env` with a variable under its own name and its Slurm name.
pub open spec fn with_twin(
    env: Map<Seq<char>, Seq<char>>,
    name: Seq<char>,
    value: Seq<char>,
) -> Map<Seq<char>, Seq<char>> {
    env.insert(name, value).insert(slurm_twin(name), value)
}

/// The variables that describe the job.
pub open spec fn job_env(req: LaunchJobRequestView, spec: WireJobSpecView) -> Map<
    Seq<char>,
    Seq<char>,
> {
    let id = decimal(req.job_id as nat);
    let peers = decimal(req.peer_nodes.len());
    let tasks = decimal(spec.num_tasks as nat);
    let e = with_twin(Map::empty(), "SPUR_JOB_ID"@, id);
    let e = with_twin(e, "SPUR_JOBID"@, id);
    let e = with_twin(e, "SPUR_JOB_NAME"@, spec.name);
    let e = with_twin(e, "SPUR_JOB_PARTITION"@, spec.partition);
    let e = with_twin(e, "SPUR_JOB_ACCOUNT"@, spec.account);
    let e = with_twin(e, "SPUR_JOB_QOS"@, spec.qos);
    let e = with_twin(e, "SPUR_NNODES"@, peers);
    let e = with_twin(e, "SPUR_JOB_NUM_NODES"@, peers);
    let e = with_twin(e, "SPUR_NTASKS"@, tasks);
    let e = with_twin(e, "SPUR_NPROCS"@, tasks);
    let e = with_twin(e, "SPUR_CPUS_PER_TASK"@, decimal(spec.cpus_per_task as nat));
    let e = with_twin(e, "SPUR_CPUS_ON_NODE"@, decimal(node_cpus(spec) as nat));
    let e = with_twin(e, "SPUR_TASKS_PER_NODE"@, decimal(node_tasks(spec) as nat));
    let e = with_twin(e, "SPUR_NODEID"@, decimal(node_rank(req, spec) as nat));
    let e = with_twin(e, "SPUR_NODELIST"@, spec.nodelist);
    let e = with_twin(e, "SPUR_JOB_NODELIST"@, spec.nodelist);
    with_twin(e, "SPURD_NODENAME"@, req.target_node)
}

/// The variables that describe the job and its place among its peers.
pub open spec fn base_env(
    req: LaunchJobRequestView,
    spec: WireJobSpecView,
    key: JobExecutionKeyView,
    namespace: Seq<char>,
) -> Map<Seq<char>, Seq<char>> {
    let rank = decimal(node_rank(req, spec) as nat);
    let tasks = decimal(node_tasks(spec) as nat);
    let e = job_env(req, spec).insert("SPUR_TASK_OFFSET"@, decimal(req.task_offset as nat)).insert(
        "SPUR_NODE_RANK"@,
        rank,
    );
    let e = if req.peer_nodes.len() > 0 {
        e.insert("SPUR_PEER_NODES"@, joined(req.peer_nodes, ","@))
    } else {
        e
    };
    let e = if req.target_node.len() > 0 {
        e.insert("SPUR_TARGET_NODE"@, req.target_node)
    } else {
        e
    };
    let e = e.insert("LOCAL_RANK"@, "0"@).insert("LOCAL_WORLD_SIZE"@, tasks).insert(
        "NPROC_PER_NODE"@,
        tasks,
    ).insert("NODE_RANK"@, rank);
    if req.peer_nodes.len() > 1 {
        e.insert("MASTER_ADDR"@, rank_zero_dns_name(key, namespace)).insert(
            "MASTER_PORT"@,
            "29500"@,
        ).insert("WORLD_SIZE"@, decimal(req.peer_nodes.len())).insert("RANK"@, rank)
    } else {
        e
    }
}

/// The variables that a GPU runtime needs.
pub open spec fn gpu_vars(gpus: u32, nvidia: bool, multi_node: bool) -> Seq<EnvVarView> {
    let pal = if nvidia {
        Seq::empty()
    } else {
        seq![plain_var("GPU_ENABLE_PAL"@, "0"@)]
    };
    let nccl = if multi_node {
        seq![plain_var("NCCL_SOCKET_IFNAME"@, "eth0"@)]
    } else {
        Seq::empty()
    };
    if gpus == 0 {
        Seq::empty()
    } else {
        pal + nccl
    }
}

/// How many GPUs a node gives to the job.
pub open spec fn allocated_gpus(req: LaunchJobRequestView) -> u32 {
    match req.allocated {
        Some(alloc) => alloc.gpus,
        None => 0,
    }
}

/// Whether `env` holds, ordered by name, the variables that describe the job,
/// those of the GPU runtime, those that the job asks for and those that it takes
/// from secrets; under one name, in this order.
pub open spec fn is_launch_env(
    env: Seq<EnvVarView>,
    base: Map<Seq<char>, Seq<char>>,
    gpu: Seq<EnvVarView>,
    own: Map<Seq<char>, Seq<char>>,
    secrets: Map<Seq<char>, Seq<char>>,
) -> bool {
    &&& ordered_by_name(env)
    &&& forall|name: Seq<char>| #[trigger]
        named(env, name) == map_named(base, name) + named(gpu, name) + map_named(own, name)
            + secret_named(secrets, name)
}

/// The quantities that the pod asks for and is limited to.
pub open spec fn launch_resources(
    allocated: Option<ResourceAllocationView>,
    nvidia: bool,
    extra: Map<Seq<char>, Seq<char>>,
) -> Map<Seq<char>, Seq<char>> {
    let base = match allocated {
        None => Map::<Seq<char>, Seq<char>>::empty(),
        Some(alloc) => {
            let r = Map::<Seq<char>, Seq<char>>::empty();
            let r = if alloc.cpus > 0 {
                r.insert("cpu"@, decimal(alloc.cpus as nat))
            } else {
                r
            };
            let r = if alloc.memory_mb > 0 {
                r.insert("memory"@, decimal(alloc.memory_mb as nat) + "Mi"@)
            } else {
                r
            };
            if alloc.gpus > 0 {
                r.insert(vendor_resource(nvidia), decimal(alloc.gpus as nat))
            } else {
                r
            }
        },
    };
    base.union_prefer_right(extra)
}

/// The labels of the pod.
pub open spec fn launch_labels(
    identity: PodExecutionIdentityView,
    job_name: Seq<char>,
    target_node: Seq<char>,
) -> Map<Seq<char>, Seq<char>> {
    let labels = identity.execution_labels().insert(
        "spur.amd.com/managed-by"@,
        "spur-k8s-operator"@,
    );
    let labels = with_label(labels, "spur.amd.com/job-name"@, job_name);
    with_label(labels, "spur.amd.com/target-node"@, target_node)
}

/// The label value that stands for a text.
pub open spec fn label_text(text: Seq<char>) -> Seq<char> {
    label_of_name(name_of_lowered(lowercase(text)))
}

/// `labels` with one that stands for a text, unless nothing is left of it.
pub open spec fn with_label(
    labels: Map<Seq<char>, Seq<char>>,
    key: Seq<char>,
    text: Seq<char>,
) -> Map<Seq<char>, Seq<char>> {
    if text.len() > 0 && label_text(text).len() > 0 {
        labels.insert(key, label_text(text))
    } else {
        labels
    }
}

/// What the container runs: the arguments, else the script in a shell, else
/// something that waits for a terminal to attach.
pub open spec fn launch_command(spec: WireJobSpecView) -> Seq<Seq<char>> {
    if spec.argv.len() > 0 {
        spec.argv
    } else if spec.script.len() > 0 {
        seq!["sh"@, "-c"@, spec.script]
    } else {
        seq!["sleep"@, "infinity"@]
    }
}

/// Where the container runs it.
pub open spec fn launch_directory(spec: WireJobSpecView) -> Option<Seq<char>> {
    if spec.container_workdir.len() > 0 {
        Some(spec.container_workdir)
    } else if spec.work_dir.len() > 0 {
        Some(spec.work_dir)
    } else {
        None
    }
}

/// The volumes of the pod.
pub open spec fn launch_volumes(spec: WireJobSpecView) -> Seq<VolumeView> {
    let volumes = volumes_of(spec.container_mounts);
    if spec.shm_size.len() > 0 {
        volumes.push(
            VolumeView {
                empty_dir: Some(
                    EmptyDirVolumeView { medium: Some("Memory"@), size_limit: Some(spec.shm_size) },
                ),
                ..bare_volume("dshm"@)
            },
        )
    } else {
        volumes
    }
}

/// The mounts of the container.
pub open spec fn launch_mounts(spec: WireJobSpecView) -> Seq<VolumeMountView> {
    let mounts = volume_mounts_of(spec.container_mounts);
    if spec.shm_size.len() > 0 {
        mounts.push(
            VolumeMountView {
                name: "dshm"@,
                mount_path: "/dev/shm"@,
                read_only: None,
                other: Seq::empty(),
            },
        )
    } else {
        mounts
    }
}

/// A list, where it is not empty.
pub open spec fn some_list<A>(items: Seq<A>) -> Option<Seq<A>> {
    if items.len() > 0 {
        Some(items)
    } else {
        None
    }
}

/// The container, with these variables.
pub open spec fn launch_container(
    req: LaunchJobRequestView,
    spec: WireJobSpecView,
    nvidia: bool,
    env: Seq<EnvVarView>,
) -> ContainerView {
    let resources = launch_resources(req.allocated, nvidia, spec.extra_resources);
    ContainerView {
        name: "spur-job"@,
        image: Some(
            if spec.container_image.len() > 0 {
                spec.container_image
            } else {
                "busybox:latest"@
            },
        ),
        image_pull_policy: Some("IfNotPresent"@),
        command: Some(launch_command(spec)),
        env: Some(env),
        working_dir: launch_directory(spec),
        volume_mounts: some_list(launch_mounts(spec)),
        resources: Some(
            ResourceRequirementsView {
                requests: Some(resources),
                limits: Some(resources),
                other: Seq::empty(),
            },
        ),
        security_context: if spec.privileged {
            Some(SecurityContextView { privileged: Some(true), other: Seq::empty() })
        } else {
            None
        },
        termination_message_path: Some("/dev/termination-log"@),
        termination_message_policy: Some("File"@),
        other: Seq::empty(),
    }
}

/// A flag, where it is set.
pub open spec fn some_flag(set: bool) -> Option<bool> {
    if set {
        Some(true)
    } else {
        None
    }
}

/// The identity with the token that the pod is dispatched with.
pub open spec fn dispatched(
    identity: PodExecutionIdentityView,
    pod_dispatch_token: Seq<char>,
) -> PodExecutionIdentityView {
    PodExecutionIdentityView { pod_dispatch_token, ..identity }
}

/// The pod that runs an execution, with these variables.
pub open spec fn launch_pod(
    plan: LaunchPlanView,
    req: LaunchJobRequestView,
    spec: WireJobSpecView,
    pod_dispatch_token: Seq<char>,
    nvidia: bool,
    env: Seq<EnvVarView>,
) -> PodView {
    let multi_node = req.peer_nodes.len() > 1 && req.target_node.len() > 0;
    PodView {
        metadata: ObjectMetaView {
            name: Some(plan.pod_name),
            namespace: Some(plan.namespace),
            uid: None,
            resource_version: None,
            labels: Some(launch_labels(plan.identity, spec.name, req.target_node)),
            annotations: Some(dispatched(plan.identity, pod_dispatch_token).annotations()),
            owner_references: Some(seq![plan.owner_reference]),
            finalizers: None,
        },
        spec: Some(
            PodSpecView {
                containers: seq![launch_container(req, spec, nvidia, env)],
                automount_service_account_token: Some(false),
                restart_policy: Some("Never"@),
                scheduler_name: Some("default-scheduler"@),
                service_account: Some("default"@),
                service_account_name: Some("default"@),
                preemption_policy: Some("PreemptLowerPriority"@),
                termination_grace_period_seconds: Some(30i64),
                enable_service_links: Some(false),
                node_name: if req.target_node.len() > 0 {
                    Some(req.target_node)
                } else if req.peer_nodes.len() > 0 {
                    Some(req.peer_nodes[0])
                } else {
                    None
                },
                hostname: if multi_node {
                    Some(pod_hostname(node_rank(req, spec)))
                } else {
                    None
                },
                subdomain: if multi_node {
                    plan.service_name
                } else {
                    None
                },
                volumes: some_list(launch_volumes(spec)),
                host_network: some_flag(spec.host_network),
                dns_policy: Some(
                    if spec.host_network {
                        "ClusterFirstWithHostNet"@
                    } else {
                        "ClusterFirst"@
                    },
                ),
                host_ipc: some_flag(spec.host_ipc),
                host_pid: None,
                priority: None,
                security_context: None,
                tolerations: None,
                other: Seq::empty(),
            },
        ),
        status: None,
    }
}

/// The variables of the pod that runs an execution.
pub open spec fn is_pod_env(
    env: Seq<EnvVarView>,
    plan: LaunchPlanView,
    req: LaunchJobRequestView,
    spec: WireJobSpecView,
    secret_env: Map<Seq<char>, Seq<char>>,
    nvidia: bool,
) -> bool {
    is_launch_env(
        env,
        base_env(req, spec, plan.identity.key, plan.namespace),
        gpu_vars(allocated_gpus(req), nvidia, req.peer_nodes.len() > 1),
        spec.environment,
        secret_env,
    )
}

/// Whether `pod` is the pod that runs an execution.
pub open spec fn is_launch_pod(
    pod: PodView,
    plan: LaunchPlanView,
    req: LaunchJobRequestView,
    spec: WireJobSpecView,
    pod_dispatch_token: Seq<char>,
    secret_env: Map<Seq<char>, Seq<char>>,
    nvidia: bool,
) -> bool {
    exists|env: Seq<EnvVarView>| #[trigger]
        is_pod_env(env, plan, req, spec, secret_env, nvidia) && pod == launch_pod(
            plan,
            req,
            spec,
            pod_dispatch_token,
            nvidia,
            env,
        )
}

/// One launch has one pod: building it again, with the maps walked in any other
/// order, gives the same pod.
pub proof fn law_launch_pod_is_unique(
    a: PodView,
    b: PodView,
    plan: LaunchPlanView,
    req: LaunchJobRequestView,
    spec: WireJobSpecView,
    pod_dispatch_token: Seq<char>,
    secret_env: Map<Seq<char>, Seq<char>>,
    nvidia: bool,
)
    requires
        is_launch_pod(a, plan, req, spec, pod_dispatch_token, secret_env, nvidia),
        is_launch_pod(b, plan, req, spec, pod_dispatch_token, secret_env, nvidia),
    ensures
        a == b,
{
    let ea = choose|env: Seq<EnvVarView>| #[trigger]
        is_pod_env(env, plan, req, spec, secret_env, nvidia) && a == launch_pod(
            plan,
            req,
            spec,
            pod_dispatch_token,
            nvidia,
            env,
        );
    let eb = choose|env: Seq<EnvVarView>| #[trigger]
        is_pod_env(env, plan, req, spec, secret_env, nvidia) && b == launch_pod(
            plan,
            req,
            spec,
            pod_dispatch_token,
            nvidia,
            env,
        );
    law_order_is_determined(ea, eb);
}

/// The pod that runs an execution carries its identity.
pub proof fn law_launch_pod_carries_identity(
    pod: PodView,
    plan: LaunchPlanView,
    req: LaunchJobRequestView,
    spec: WireJobSpecView,
    pod_dispatch_token: Seq<char>,
    secret_env: Map<Seq<char>, Seq<char>>,
    nvidia: bool,
)
    requires
        plan.identity.wf(),
        is_launch_pod(pod, plan, req, spec, pod_dispatch_token, secret_env, nvidia),
    ensures
        crate::execution_identity::carried_identity(pod.metadata) == Ok::<
            PodExecutionIdentityView,
            Seq<char>,
        >(dispatched(plan.identity, pod_dispatch_token)),
        controlled_by(pod.metadata, plan.owner_reference.uid) == (plan.owner_reference.controller
            == Some(true)),
        pod_agrees(pod, pod),
{
    let identity = dispatched(plan.identity, pod_dispatch_token);
    reveal_strlit("spur.amd.com/managed-by");
    reveal_strlit("spur.amd.com/job-name");
    reveal_strlit("spur.amd.com/target-node");
    reveal_strlit("spur.amd.com/job-id");
    reveal_strlit("spur.amd.com/submission-generation");
    reveal_strlit("spur.amd.com/run-attempt");
    let own = identity.execution_labels();
    let labels = launch_labels(plan.identity, spec.name, req.target_node);
    assert("spur.amd.com/managed-by"@.len() == 23);
    assert("spur.amd.com/job-name"@.len() == 21);
    assert("spur.amd.com/target-node"@.len() == 24);
    assert(crate::execution_identity::JOB_ID_LABEL@.len() == 19);
    assert(crate::execution_identity::SUBMISSION_GENERATION_LABEL@.len() == 34);
    assert(crate::execution_identity::RUN_ATTEMPT_LABEL@.len() == 24);
    assert("spur.amd.com/target-node"@[13] == 't');
    assert(crate::execution_identity::RUN_ATTEMPT_LABEL@[13] == 'r');
    assert(own.submap_of(labels));
    crate::execution_identity::law_pod_round_trip(identity, pod.metadata);
    assert(pod.metadata.owner_references->0[0] == plan.owner_reference);
    crate::execution_identity::lemma_names_distinct();
    assert(lookup(
        identity.annotations(),
        crate::execution_identity::PROVENANCE_RECORDED_ANNOTATION@,
    ) is None);
    crate::desired::law_pod_agrees_with_itself(pod);
}

fn twin_name(name: &str) -> (out: String)
    ensures
        out@ == slurm_twin(name@),
{
    if has_prefix(name, "SPUR") {
        let chars: Vec<char> = chars_of(name);
        proof {
            reveal_strlit("SPUR");
            assert(name@.skip(4) =~= chars@.subrange(4, chars@.len() as int));
        }
        let rest = text_of(&chars, 4, chars.len());
        join2("SLURM", rest.as_str())
    } else {
        name.to_owned()
    }
}

fn set_twin(env: &mut StrMap, name: &str, value: &str)
    ensures
        final(env)@ == with_twin(old(env)@, name@, value@),
{
    env.insert(name.to_owned(), value.to_owned());
    env.insert(twin_name(name), value.to_owned());
}

fn set_var(env: &mut StrMap, name: &str, value: &str)
    ensures
        final(env)@ == old(env)@.insert(name@, value@),
{
    env.insert(name.to_owned(), value.to_owned());
}

fn tasks_on_node(spec: &WireJobSpec) -> (out: u32)
    ensures
        out == node_tasks(spec@),
        out > 0,
{
    if spec.tasks_per_node > 1 {
        spec.tasks_per_node
    } else {
        1
    }
}

fn rank_of_node(req: &LaunchJobRequest, spec: &WireJobSpec) -> (out: u32)
    ensures
        out == node_rank(req@, spec@),
{
    let tasks: u32 = tasks_on_node(spec);
    assert(req.task_offset as int / tasks as int <= req.task_offset) by (nonlinear_arith)
        requires
            tasks > 0,
    ;
    assert(0 <= req.task_offset as int / tasks as int) by (nonlinear_arith)
        requires
            tasks > 0,
    ;
    req.task_offset / tasks
}

fn build_job_env(req: &LaunchJobRequest, spec: &WireJobSpec) -> (env: StrMap)
    requires
        node_cpus(spec@) <= u32::MAX,
    ensures
        env@ == job_env(req@, spec@),
{
    let id = u32_text(req.job_id);
    let peers = u64_text(req.peer_nodes.len() as u64);
    let tasks = u32_text(spec.num_tasks);
    let node_tasks: u32 = tasks_on_node(spec);
    let cpus_per_task: u32 = if spec.cpus_per_task > 1 {
        spec.cpus_per_task
    } else {
        1
    };
    let cpus = u32_text(node_tasks * cpus_per_task);
    let rank = u32_text(rank_of_node(req, spec));
    let mut env = StrMap::new();
    set_twin(&mut env, "SPUR_JOB_ID", id.as_str());
    set_twin(&mut env, "SPUR_JOBID", id.as_str());
    set_twin(&mut env, "SPUR_JOB_NAME", spec.name.as_str());
    set_twin(&mut env, "SPUR_JOB_PARTITION", spec.partition.as_str());
    set_twin(&mut env, "SPUR_JOB_ACCOUNT", spec.account.as_str());
    set_twin(&mut env, "SPUR_JOB_QOS", spec.qos.as_str());
    set_twin(&mut env, "SPUR_NNODES", peers.as_str());
    set_twin(&mut env, "SPUR_JOB_NUM_NODES", peers.as_str());
    set_twin(&mut env, "SPUR_NTASKS", tasks.as_str());
    set_twin(&mut env, "SPUR_NPROCS", tasks.as_str());
    set_twin(&mut env, "SPUR_CPUS_PER_TASK", u32_text(spec.cpus_per_task).as_str());
    set_twin(&mut env, "SPUR_CPUS_ON_NODE", cpus.as_str());
    set_twin(&mut env, "SPUR_TASKS_PER_NODE", u32_text(node_tasks).as_str());
    set_twin(&mut env, "SPUR_NODEID", rank.as_str());
    set_twin(&mut env, "SPUR_NODELIST", spec.nodelist.as_str());
    set_twin(&mut env, "SPUR_JOB_NODELIST", spec.nodelist.as_str());
    set_twin(&mut env, "SPURD_NODENAME", req.target_node.as_str());
    env
}

fn build_base_env(
    req: &LaunchJobRequest,
    spec: &WireJobSpec,
    identity: &PodExecutionIdentity,
    namespace: &str,
) -> (env: StrMap)
    requires
        node_cpus(spec@) <= u32::MAX,
    ensures
        env@ == base_env(req@, spec@, identity@.key, namespace@),
{
    let rank = u32_text(rank_of_node(req, spec));
    let tasks = u32_text(tasks_on_node(spec));
    let mut env = build_job_env(req, spec);
    set_var(&mut env, "SPUR_TASK_OFFSET", u32_text(req.task_offset).as_str());
    set_var(&mut env, "SPUR_NODE_RANK", rank.as_str());
    if req.peer_nodes.len() > 0 {
        set_var(&mut env, "SPUR_PEER_NODES", join_all(&req.peer_nodes, ",").as_str());
    }
    if !is_blank(&req.target_node) {
        set_var(&mut env, "SPUR_TARGET_NODE", req.target_node.as_str());
    }
    set_var(&mut env, "LOCAL_RANK", "0");
    set_var(&mut env, "LOCAL_WORLD_SIZE", tasks.as_str());
    set_var(&mut env, "NPROC_PER_NODE", tasks.as_str());
    set_var(&mut env, "NODE_RANK", rank.as_str());
    if req.peer_nodes.len() > 1 {
        set_var(
            &mut env,
            "MASTER_ADDR",
            execution_rank_zero_dns_name(identity, namespace).as_str(),
        );
        set_var(&mut env, "MASTER_PORT", "29500");
        set_var(&mut env, "WORLD_SIZE", u64_text(req.peer_nodes.len() as u64).as_str());
        set_var(&mut env, "RANK", rank.as_str());
    }
    env
}

fn append_gpu_vars(vars: &mut Vec<EnvVar>, gpus: u32, nvidia: bool, multi_node: bool)
    ensures
        forall|name: Seq<char>| #[trigger]
            named(final(vars).deep_view(), name) == named(old(vars).deep_view(), name) + named(
                gpu_vars(gpus, nvidia, multi_node),
                name,
            ),
{
    let ghost before = vars.deep_view();
    if gpus > 0 {
        if !nvidia {
            append_var(vars, plain_env("GPU_ENABLE_PAL", "0"));
        }
        if multi_node {
            append_var(vars, plain_env("NCCL_SOCKET_IFNAME", "eth0"));
        }
    }
    proof {
        let added = gpu_vars(gpus, nvidia, multi_node);
        assert(vars.deep_view() =~= before + added);
        assert forall|name: Seq<char>| #[trigger] named(vars.deep_view(), name) == named(before, name)
            + named(added, name) by {
            lemma_named_concat(before, added, name);
        }
    }
}

fn build_env(
    base: &StrMap,
    gpus: u32,
    nvidia: bool,
    multi_node: bool,
    own: &StrMap,
    secrets: &StrMap,
) -> (env: Vec<EnvVar>)
    ensures
        is_launch_env(
            env.deep_view(),
            base@,
            gpu_vars(gpus, nvidia, multi_node),
            own@,
            secrets@,
        ),
{
    let mut vars: Vec<EnvVar> = Vec::new();
    let ghost v0 = vars.deep_view();
    append_map(&mut vars, base);
    let ghost v1 = vars.deep_view();
    append_gpu_vars(&mut vars, gpus, nvidia, multi_node);
    let ghost v2 = vars.deep_view();
    append_map(&mut vars, own);
    let ghost v3 = vars.deep_view();
    append_secrets(&mut vars, secrets);
    let ghost v4 = vars.deep_view();
    let env = sort_by_name(vars);
    proof {
        let gpu = gpu_vars(gpus, nvidia, multi_node);
        assert forall|name: Seq<char>| #[trigger]
            named(env.deep_view(), name) == map_named(base@, name) + named(gpu, name) + map_named(
                own@,
                name,
            ) + secret_named(secrets@, name) by {
            assert(v0 =~= Seq::<EnvVarView>::empty());
            lemma_named_none(v0, name);
            assert(named(v1, name) == named(v0, name) + map_named(base@, name));
            assert(named(v1, name) =~= map_named(base@, name));
            assert(named(v2, name) == named(v1, name) + named(gpu, name));
            assert(named(v3, name) == named(v2, name) + map_named(own@, name));
            assert(named(v4, name) == named(v3, name) + secret_named(secrets@, name));
        }
    }
    env
}

fn build_resources(req: &LaunchJobRequest, nvidia: bool, extra: &StrMap) -> (out: StrMap)
    ensures
        out@ == launch_resources(req@.allocated, nvidia, extra@),
{
    let mut out = StrMap::new();
    if let Some(alloc) = &req.allocated {
        if alloc.cpus > 0 {
            set_var(&mut out, "cpu", u32_text(alloc.cpus).as_str());
        }
        if alloc.memory_mb > 0 {
            let amount = u64_text(alloc.memory_mb);
            set_var(&mut out, "memory", join2(amount.as_str(), "Mi").as_str());
        }
        if alloc.gpus > 0 {
            let key = if nvidia {
                "nvidia.com/gpu"
            } else {
                "amd.com/gpu"
            };
            set_var(&mut out, key, u32_text(alloc.gpus).as_str());
        }
    }
    out.insert_all(extra);
    out
}

fn set_label(labels: &mut StrMap, key: &str, text: &String)
    ensures
        final(labels)@ == with_label(old(labels)@, key@, text@),
{
    if !is_blank(text) {
        let value = sanitize_k8s_label_value(text.as_str());
        if !is_blank(&value) {
            labels.insert(key.to_owned(), value);
        }
    }
}

/// The labels of the pod that runs an execution.
pub fn pod_labels(identity: &PodExecutionIdentity, job_name: &String, target_node: &String) -> (out:
    StrMap)
    ensures
        out@ == launch_labels(identity@, job_name@, target_node@),
{
    let mut labels = identity.execution_labels();
    labels.insert("spur.amd.com/managed-by".to_owned(), "spur-k8s-operator".to_owned());
    set_label(&mut labels, "spur.amd.com/job-name", job_name);
    set_label(&mut labels, "spur.amd.com/target-node", target_node);
    labels
}

fn build_command(spec: &WireJobSpec) -> (out: Vec<String>)
    ensures
        out.deep_view() == launch_command(spec@),
{
    if spec.argv.len() > 0 {
        return spec.argv.copy_of();
    }
    let mut out: Vec<String> = Vec::new();
    if !is_blank(&spec.script) {
        out.push("sh".to_owned());
        out.push("-c".to_owned());
        out.push(spec.script.clone());
    } else {
        out.push("sleep".to_owned());
        out.push("infinity".to_owned());
    }
    proof {
        assert(out.deep_view() =~= launch_command(spec@));
    }
    out
}

fn build_directory(spec: &WireJobSpec) -> (out: Option<String>)
    ensures
        out.deep_view() == launch_directory(spec@),
{
    if !is_blank(&spec.container_workdir) {
        Some(spec.container_workdir.clone())
    } else if !is_blank(&spec.work_dir) {
        Some(spec.work_dir.clone())
    } else {
        None
    }
}

fn list_if_any<T: Plain>(items: Vec<T>) -> (out: Option<Vec<T>>)
    ensures
        out.deep_view() == some_list(items.deep_view()),
{
    if items.len() > 0 {
        Some(items)
    } else {
        None
    }
}

fn build_volumes(spec: &WireJobSpec) -> (out: (Vec<Volume>, Vec<VolumeMount>))
    ensures
        out.0.deep_view() == launch_volumes(spec@),
        out.1.deep_view() == launch_mounts(spec@),
{
    let (mut volumes, mut mounts) = parse_mounts(&spec.container_mounts);
    if !is_blank(&spec.shm_size) {
        let ghost v = volumes.deep_view();
        let ghost m = mounts.deep_view();
        let volume = Volume {
            name: "dshm".to_owned(),
            host_path: None,
            persistent_volume_claim: None,
            empty_dir: Some(
                EmptyDirVolume {
                    medium: Some("Memory".to_owned()),
                    size_limit: Some(spec.shm_size.clone()),
                },
            ),
            other: String::new(),
        };
        let mount = VolumeMount {
            name: "dshm".to_owned(),
            mount_path: "/dev/shm".to_owned(),
            read_only: None,
            other: String::new(),
        };
        volumes.push(volume);
        mounts.push(mount);
        proof {
            assert(volumes.deep_view() =~= v.push(volume@));
            assert(mounts.deep_view() =~= m.push(mount@));
        }
    }
    (volumes, mounts)
}

fn build_container(
    req: &LaunchJobRequest,
    spec: &WireJobSpec,
    nvidia: bool,
    env: Vec<EnvVar>,
    mounts: Vec<VolumeMount>,
) -> (out: Container)
    requires
        mounts.deep_view() == launch_mounts(spec@),
    ensures
        out@ == launch_container(req@, spec@, nvidia, env.deep_view()),
{
    let resources = build_resources(req, nvidia, &spec.extra_resources);
    Container {
        name: "spur-job".to_owned(),
        image: Some(
            if !is_blank(&spec.container_image) {
                spec.container_image.clone()
            } else {
                "busybox:latest".to_owned()
            },
        ),
        image_pull_policy: Some("IfNotPresent".to_owned()),
        command: Some(build_command(spec)),
        env: Some(env),
        working_dir: build_directory(spec),
        volume_mounts: list_if_any(mounts),
        resources: Some(
            ResourceRequirements {
                requests: Some(resources.copy_of()),
                limits: Some(resources),
                other: String::new(),
            },
        ),
        security_context: if spec.privileged {
            Some(SecurityContext { privileged: Some(true), other: String::new() })
        } else {
            None
        },
        termination_message_path: Some("/dev/termination-log".to_owned()),
        termination_message_policy: Some("File".to_owned()),
        other: String::new(),
    }
}

/// The identity with the token that the pod is dispatched with.
pub fn dispatched_identity(identity: &PodExecutionIdentity, pod_dispatch_token: &str) -> (out:
    PodExecutionIdentity)
    ensures
        out@ == dispatched(identity@, pod_dispatch_token@),
{
    PodExecutionIdentity {
        key: identity.key.copy_of(),
        worker_incarnation: identity.worker_incarnation.clone(),
        submission_token: identity.submission_token.clone(),
        pod_dispatch_token: pod_dispatch_token.to_owned(),
    }
}

fn flag_if_set(set: bool) -> (out: Option<bool>)
    ensures
        out == some_flag(set),
{
    if set {
        Some(true)
    } else {
        None
    }
}

fn one<T: Plain>(item: T) -> (out: Vec<T>)
    ensures
        out.deep_view() == seq![item.deep_view()],
{
    let mut out: Vec<T> = Vec::new();
    out.push(item);
    proof {
        assert(out.deep_view() =~= seq![item.deep_view()]);
    }
    out
}

/// The pod that runs an execution. `gpu_type` is the type that the job's GPU
/// request names, where it names one.
pub fn desired_pod(
    plan: &LaunchPlan,
    req: &LaunchJobRequest,
    spec: &WireJobSpec,
    pod_dispatch_token: &str,
    secret_env: &StrMap,
    gpu_type: Option<&str>,
) -> (out: Pod)
    requires
        node_cpus(spec@) <= u32::MAX,
    ensures
        is_launch_pod(
            out@,
            plan@,
            req@,
            spec@,
            pod_dispatch_token@,
            secret_env@,
            asks_for_nvidia(gpu_type.deep_view()),
        ),
{
    let nvidia = match gpu_type {
        Some(t) => is_nvidia_gpu(t),
        None => false,
    };
    let gpus: u32 = match &req.allocated {
        Some(alloc) => alloc.gpus,
        None => 0,
    };
    let base = build_base_env(req, spec, &plan.identity, plan.namespace.as_str());
    let env = build_env(
        &base,
        gpus,
        nvidia,
        req.peer_nodes.len() > 1,
        &spec.environment,
        secret_env,
    );
    let ghost env_view = env.deep_view();
    let (volumes, mounts) = build_volumes(spec);
    let container = build_container(req, spec, nvidia, env, mounts);
    let multi_node = req.peer_nodes.len() > 1 && !is_blank(&req.target_node);
    let node_name = if !is_blank(&req.target_node) {
        Some(req.target_node.clone())
    } else if req.peer_nodes.len() > 0 {
        Some(req.peer_nodes[0].clone())
    } else {
        None
    };
    let identity = dispatched_identity(&plan.identity, pod_dispatch_token);
    let pod = Pod {
        metadata: ObjectMeta {
            name: Some(plan.pod_name.clone()),
            namespace: Some(plan.namespace.clone()),
            uid: None,
            resource_version: None,
            labels: Some(pod_labels(&plan.identity, &spec.name, &req.target_node)),
            annotations: Some(identity.annotations()),
            owner_references: Some(one(plan.owner_reference.copy_of())),
            finalizers: None,
        },
        spec: Some(
            PodSpec {
                containers: one(container),
                automount_service_account_token: Some(false),
                restart_policy: Some("Never".to_owned()),
                scheduler_name: Some("default-scheduler".to_owned()),
                service_account: Some("default".to_owned()),
                service_account_name: Some("default".to_owned()),
                preemption_policy: Some("PreemptLowerPriority".to_owned()),
                termination_grace_period_seconds: Some(30),
                enable_service_links: Some(false),
                node_name,
                hostname: if multi_node {
                    Some(execution_pod_hostname(rank_of_node(req, spec)))
                } else {
                    None
                },
                subdomain: if multi_node {
                    plan.service_name.copy_of()
                } else {
                    None
                },
                volumes: list_if_any(volumes),
                host_network: flag_if_set(spec.host_network),
                dns_policy: Some(
                    if spec.host_network {
                        "ClusterFirstWithHostNet".to_owned()
                    } else {
                        "ClusterFirst".to_owned()
                    },
                ),
                host_ipc: flag_if_set(spec.host_ipc),
                host_pid: None,
                priority: None,
                security_context: None,
                tolerations: None,
                other: String::new(),
            },
        ),
        status: None,
    };
    proof {
        assert(is_pod_env(env_view, plan@, req@, spec@, secret_env@, nvidia));
        assert(pod@ =~= launch_pod(plan@, req@, spec@, pod_dispatch_token@, nvidia, env_view));
    }
    pod
}

/// What came of asking the cluster to create an object.
#[derive(Debug)]
pub enum CreateReply<T> {
    /// It was created, as this object.
    Created(T),
    /// There is one with its name: this object, or the reason why it could not
    /// be read.
    Exists(Result<T, String>),
    /// It was not created, for this reason.
    Failed(String),
}

/// What a launch does next.
#[derive(Debug)]
pub enum LaunchStep {
    /// Record that this pod is the one.
    RecordProvenance(Pod),
    /// Answer the request.
    Respond(LaunchJobResponse),
}

/// What a [`LaunchStep`] holds.
pub enum LaunchStepView {
    RecordProvenance(PodView),
    Respond(LaunchJobResponseView),
}

impl View for LaunchStep {
    type V = LaunchStepView;

    open spec fn view(&self) -> LaunchStepView {
        match self {
            LaunchStep::RecordProvenance(pod) => LaunchStepView::RecordProvenance(pod@),
            LaunchStep::Respond(response) => LaunchStepView::Respond(response@),
        }
    }
}

/// A namespace and a name, as they read in messages.
pub open spec fn qualified(namespace: Seq<char>, name: Seq<char>) -> Seq<char> {
    namespace + "/"@ + name
}

/// What a launch does once the cluster was asked to create its pod. A pod that
/// exists already is taken for the one asked for only where it carries the same
/// execution, has the same owner and runs the same workload.
pub open spec fn pod_settled(
    plan: LaunchPlanView,
    identity: PodExecutionIdentityView,
    desired: PodView,
    reply: CreateReply<Pod>,
) -> Result<LaunchStepView, StatusView> {
    let called = qualified(plan.namespace, plan.pod_name);
    match reply {
        CreateReply::Created(pod) => if pod_agrees(pod@, desired) {
            Ok(LaunchStepView::RecordProvenance(pod@))
        } else {
            Err(
                refusal(
                    Code::FailedPrecondition,
                    "created Pod was mutated away from the exact desired workload"@,
                ),
            )
        },
        CreateReply::Exists(Err(error)) => Err(
            refusal(
                Code::Aborted,
                "Pod "@ + called + " conflicted but could not be read: "@ + error@,
            ),
        ),
        CreateReply::Exists(Ok(pod)) => if identity.matches_pod(pod@) && controlled_by(
            pod@.metadata,
            plan.owner_reference.uid,
        ) && pod_agrees(pod@, desired) {
            Ok(LaunchStepView::RecordProvenance(pod@))
        } else {
            Err(
                refusal(
                    Code::FailedPrecondition,
                    "Pod "@ + called + " belongs to a different execution"@,
                ),
            )
        },
        CreateReply::Failed(error) => Ok(
            LaunchStepView::Respond(LaunchJobResponseView { success: false, error: error@ }),
        ),
    }
}

/// What a launch does once the cluster was asked to create its pod.
pub fn settle_pod(
    plan: &LaunchPlan,
    identity: &PodExecutionIdentity,
    desired: &Pod,
    reply: CreateReply<Pod>,
) -> (out: Result<LaunchStep, Status>)
    ensures
        outcome_view(out) == pod_settled(plan@, identity@, desired@, reply),
{
    let called = join3(plan.namespace.as_str(), "/", plan.pod_name.as_str());
    match reply {
        CreateReply::Created(pod) => {
            if pod_matches_desired(&pod, desired) {
                Ok(LaunchStep::RecordProvenance(pod))
            } else {
                Err(
                    Status::new(
                        Code::FailedPrecondition,
                        "created Pod was mutated away from the exact desired workload",
                    ),
                )
            }
        },
        CreateReply::Exists(Err(error)) => {
            let head = join3("Pod ", called.as_str(), " conflicted but could not be read: ");
            Err(Status { code: Code::Aborted, message: join2(head.as_str(), error.as_str()) })
        },
        CreateReply::Exists(Ok(pod)) => {
            if identity.matches_pod(&pod) && resource_has_controller_owner(
                &pod.metadata,
                plan.owner_reference.uid.as_str(),
            ) && pod_matches_desired(&pod, desired) {
                Ok(LaunchStep::RecordProvenance(pod))
            } else {
                Err(
                    Status {
                        code: Code::FailedPrecondition,
                        message: join3(
                            "Pod ",
                            called.as_str(),
                            " belongs to a different execution",
                        ),
                    },
                )
            }
        },
        CreateReply::Failed(error) => Ok(
            LaunchStep::Respond(LaunchJobResponse { success: false, error }),
        ),
    }
}

/// The answer to a launch whose pod was recorded.
pub fn launched() -> (out: LaunchJobResponse)
    ensures
        out@ == (LaunchJobResponseView { success: true, error: Seq::empty() }),
{
    LaunchJobResponse { success: true, error: String::new() }
}

/// Whatever the cluster answered, a pod whose provenance is recorded is the pod
/// asked for.
pub proof fn law_only_the_desired_pod_is_recorded(
    plan: LaunchPlanView,
    identity: PodExecutionIdentityView,
    desired: PodView,
    reply: CreateReply<Pod>,
)
    ensures
        pod_settled(plan, identity, desired, reply) matches Ok(LaunchStepView::RecordProvenance(pod))
            ==> pod_agrees(pod, desired),
{
}

/// The service by which the peers of an execution find each other.
pub open spec fn headless_service(
    identity: PodExecutionIdentityView,
    labels: Map<Seq<char>, Seq<char>>,
    namespace: Seq<char>,
    owner_reference: OwnerReferenceView,
    service_dispatch_token: Seq<char>,
) -> ServiceView {
    let own = identity.execution_labels().insert(
        "spur.amd.com/managed-by"@,
        "spur-k8s-operator"@,
    );
    ServiceView {
        metadata: ObjectMetaView {
            name: Some(service_name(identity.key)),
            namespace: Some(namespace),
            uid: None,
            resource_version: None,
            labels: Some(
                match lookup(labels, "spur.amd.com/job-name"@) {
                    Some(job_name) => own.insert("spur.amd.com/job-name"@, job_name),
                    None => own,
                },
            ),
            annotations: Some(identity.service_annotations(service_dispatch_token)),
            owner_references: Some(seq![owner_reference]),
            finalizers: None,
        },
        spec: Some(
            ServiceSpecView {
                cluster_ip: Some("None"@),
                type_: Some("ClusterIP"@),
                session_affinity: Some("None"@),
                internal_traffic_policy: Some("Cluster"@),
                publish_not_ready_addresses: Some(true),
                selector: Some(identity.execution_labels()),
                ports: Some(
                    seq![
                        ServicePortView {
                            name: Some("nccl"@),
                            port: 29500,
                            target_port: Some(29500i32),
                            protocol: Some("TCP"@),
                            other: Seq::empty(),
                        },
                    ],
                ),
                cluster_ips: None,
                ip_families: None,
                ip_family_policy: None,
                external_ips: None,
                other: Seq::empty(),
            },
        ),
    }
}

/// The service by which the peers of an execution find each other. `labels` are
/// those of its pods.
pub fn desired_service(
    identity: &PodExecutionIdentity,
    labels: &StrMap,
    namespace: &str,
    owner_reference: &OwnerReference,
    service_dispatch_token: &str,
) -> (out: Service)
    ensures
        out@ == headless_service(
            identity@,
            labels@,
            namespace@,
            owner_reference@,
            service_dispatch_token@,
        ),
{
    let mut own = identity.execution_labels();
    own.insert("spur.amd.com/managed-by".to_owned(), "spur-k8s-operator".to_owned());
    if let Some(job_name) = labels.get("spur.amd.com/job-name") {
        own.insert("spur.amd.com/job-name".to_owned(), job_name.clone());
    }
    let port = ServicePort {
        name: Some("nccl".to_owned()),
        port: 29500,
        target_port: Some(29500),
        protocol: Some("TCP".to_owned()),
        other: String::new(),
    };
    Service {
        metadata: ObjectMeta {
            name: Some(execution_service_name(identity)),
            namespace: Some(namespace.to_owned()),
            uid: None,
            resource_version: None,
            labels: Some(own),
            annotations: Some(identity.service_annotations(service_dispatch_token)),
            owner_references: Some(one(owner_reference.copy_of())),
            finalizers: None,
        },
        spec: Some(
            ServiceSpec {
                cluster_ip: Some("None".to_owned()),
                type_: Some("ClusterIP".to_owned()),
                session_affinity: Some("None".to_owned()),
                internal_traffic_policy: Some("Cluster".to_owned()),
                publish_not_ready_addresses: Some(true),
                selector: Some(identity.execution_labels()),
                ports: Some(one(port)),
                cluster_ips: None,
                ip_families: None,
                ip_family_policy: None,
                external_ips: None,
                other: String::new(),
            },
        ),
    }
}

/// The service that the cluster has once it was asked to create one.
pub open spec fn service_settled(
    identity: PodExecutionIdentityView,
    owner_uid: Seq<char>,
    namespace: Seq<char>,
    service_dispatch_token: Seq<char>,
    desired: ServiceView,
    reply: CreateReply<Service>,
) -> Result<ServiceView, StatusView> {
    let called = qualified(namespace, service_name(identity.key));
    match reply {
        CreateReply::Created(service) => if service_agrees(service@, desired) {
            Ok(service@)
        } else {
            Err(
                refusal(
                    Code::FailedPrecondition,
                    "created Service was mutated away from the exact desired contract"@,
                ),
            )
        },
        CreateReply::Exists(Err(error)) => Err(
            refusal(
                Code::Aborted,
                "Service "@ + called + " conflicted but could not be read: "@ + error@,
            ),
        ),
        CreateReply::Exists(Ok(service)) => if identity.owns_service(service@) && controlled_by(
            service@.metadata,
            owner_uid,
        ) && lookup_opt(service@.metadata.annotations, SERVICE_DISPATCH_TOKEN_ANNOTATION@) == Some(
            service_dispatch_token,
        ) && service_agrees(service@, desired) {
            Ok(service@)
        } else {
            Err(
                refusal(
                    Code::FailedPrecondition,
                    "Service "@ + called + " belongs to a different execution"@,
                ),
            )
        },
        CreateReply::Failed(error) => Err(
            refusal(Code::Internal, "failed to create Service "@ + called + ": "@ + error@),
        ),
    }
}

/// The service that the cluster has once it was asked to create one.
pub fn settle_service(
    identity: &PodExecutionIdentity,
    owner_uid: &str,
    namespace: &str,
    service_dispatch_token: &str,
    desired: &Service,
    reply: CreateReply<Service>,
) -> (out: Result<Service, Status>)
    ensures
        outcome_view(out) == service_settled(
            identity@,
            owner_uid@,
            namespace@,
            service_dispatch_token@,
            desired@,
            reply,
        ),
{
    let name = execution_service_name(identity);
    let called = join3(namespace, "/", name.as_str());
    match reply {
        CreateReply::Created(service) => {
            if service_matches_desired(&service, desired) {
                Ok(service)
            } else {
                Err(
                    Status::new(
                        Code::FailedPrecondition,
                        "created Service was mutated away from the exact desired contract",
                    ),
                )
            }
        },
        CreateReply::Exists(Err(error)) => {
            let head = join3("Service ", called.as_str(), " conflicted but could not be read: ");
            Err(Status { code: Code::Aborted, message: join2(head.as_str(), error.as_str()) })
        },
        CreateReply::Exists(Ok(service)) => {
            if identity.owns_service(&service) && resource_has_controller_owner(
                &service.metadata,
                owner_uid,
            ) && holds(
                get_opt(&service.metadata.annotations, SERVICE_DISPATCH_TOKEN_ANNOTATION),
                &service_dispatch_token.to_owned(),
            ) && service_matches_desired(&service, desired) {
                Ok(service)
            } else {
                Err(
                    Status {
                        code: Code::FailedPrecondition,
                        message: join3(
                            "Service ",
                            called.as_str(),
                            " belongs to a different execution",
                        ),
                    },
                )
            }
        },
        CreateReply::Failed(error) => {
            let head = join3("failed to create Service ", called.as_str(), ": ");
            Err(Status { code: Code::Internal, message: join2(head.as_str(), error.as_str()) })
        },
    }
}

proof fn differ(a: Seq<char>, b: Seq<char>, i: int)
    requires
        a.len() != b.len() || (0 <= i < a.len() && a[i] != b[i]),
    ensures
        a != b,
{
}

/// A number that tells the names of the variables of a job apart.
spec fn name_code(name: Seq<char>) -> int {
    let n = name.len() as int;
    n + 100 * (name[1] as int) + 100_000 * (name[n - 1] as int) + 100_000_000 * (name[n - 3] as int)
}

proof fn lemma_names_are_apart()
    ensures
        name_code("SPUR_JOB_ID"@) == 9506808011,
        name_code("SLURM_JOB_ID"@) == 9506807612,
        name_code("SPUR_JOBID"@) == 6606808010,
        name_code("SLURM_JOBID"@) == 6606807611,
        name_code("SPUR_JOB_NAME"@) == 6506908013,
        name_code("SLURM_JOB_NAME"@) == 6506907614,
        name_code("SPUR_JOB_PARTITION"@) == 7307808018,
        name_code("SLURM_JOB_PARTITION"@) == 7307807619,
        name_code("SPUR_JOB_ACCOUNT"@) == 8508408016,
        name_code("SLURM_JOB_ACCOUNT"@) == 8508407617,
        name_code("SPUR_JOB_QOS"@) == 8108308012,
        name_code("SLURM_JOB_QOS"@) == 8108307613,
        name_code("SPUR_NNODES"@) == 6808308011,
        name_code("SLURM_NNODES"@) == 6808307612,
        name_code("SPUR_JOB_NUM_NODES"@) == 6808308018,
        name_code("SLURM_JOB_NUM_NODES"@) == 6808307619,
        name_code("SPUR_NTASKS"@) == 8308308011,
        name_code("SLURM_NTASKS"@) == 8308307612,
        name_code("SPUR_NPROCS"@) == 7908308011,
        name_code("SLURM_NPROCS"@) == 7908307612,
        name_code("SPUR_CPUS_PER_TASK"@) == 6507508018,
        name_code("SLURM_CPUS_PER_TASK"@) == 6507507619,
        name_code("SPUR_CPUS_ON_NODE"@) == 7906908017,
        name_code("SLURM_CPUS_ON_NODE"@) == 7906907618,
        name_code("SPUR_TASKS_PER_NODE"@) == 7906908019,
        name_code("SLURM_TASKS_PER_NODE"@) == 7906907620,
        name_code("SPUR_NODEID"@) == 6906808011,
        name_code("SLURM_NODEID"@) == 6906807612,
        name_code("SPUR_NODELIST"@) == 7308408013,
        name_code("SLURM_NODELIST"@) == 7308407614,
        name_code("SPUR_JOB_NODELIST"@) == 7308408017,
        name_code("SLURM_JOB_NODELIST"@) == 7308407618,
        name_code("SPURD_NODENAME"@) == 6506908014,
        name_code("SLURMD_NODENAME"@) == 6506907615,
        name_code("SPUR_TASK_OFFSET"@) == 8308408016,
        name_code("SPUR_NODE_RANK"@) == 6507508014,
        name_code("SPUR_PEER_NODES"@) == 6808308015,
        name_code("SPUR_TARGET_NODE"@) == 7906908016,
        name_code("LOCAL_RANK"@) == 6507507910,
        name_code("LOCAL_WORLD_SIZE"@) == 7306907916,
        name_code("NPROC_PER_NODE"@) == 7906908014,
        name_code("NODE_RANK"@) == 6507507909,
        name_code("MASTER_ADDR"@) == 6808206511,
        name_code("MASTER_PORT"@) == 7908406511,
        name_code("WORLD_SIZE"@) == 7306907910,
        name_code("RANK"@) == 6507506504,
{
    reveal_strlit("SPUR_JOB_ID");
    reveal_strlit("SLURM_JOB_ID");
    reveal_strlit("SPUR_JOBID");
    reveal_strlit("SLURM_JOBID");
    reveal_strlit("SPUR_JOB_NAME");
    reveal_strlit("SLURM_JOB_NAME");
    reveal_strlit("SPUR_JOB_PARTITION");
    reveal_strlit("SLURM_JOB_PARTITION");
    reveal_strlit("SPUR_JOB_ACCOUNT");
    reveal_strlit("SLURM_JOB_ACCOUNT");
    reveal_strlit("SPUR_JOB_QOS");
    reveal_strlit("SLURM_JOB_QOS");
    reveal_strlit("SPUR_NNODES");
    reveal_strlit("SLURM_NNODES");
    reveal_strlit("SPUR_JOB_NUM_NODES");
    reveal_strlit("SLURM_JOB_NUM_NODES");
    reveal_strlit("SPUR_NTASKS");
    reveal_strlit("SLURM_NTASKS");
    reveal_strlit("SPUR_NPROCS");
    reveal_strlit("SLURM_NPROCS");
    reveal_strlit("SPUR_CPUS_PER_TASK");
    reveal_strlit("SLURM_CPUS_PER_TASK");
    reveal_strlit("SPUR_CPUS_ON_NODE");
    reveal_strlit("SLURM_CPUS_ON_NODE");
    reveal_strlit("SPUR_TASKS_PER_NODE");
    reveal_strlit("SLURM_TASKS_PER_NODE");
    reveal_strlit("SPUR_NODEID");
    reveal_strlit("SLURM_NODEID");
    reveal_strlit("SPUR_NODELIST");
    reveal_strlit("SLURM_NODELIST");
    reveal_strlit("SPUR_JOB_NODELIST");
    reveal_strlit("SLURM_JOB_NODELIST");
    reveal_strlit("SPURD_NODENAME");
    reveal_strlit("SLURMD_NODENAME");
    reveal_strlit("SPUR_TASK_OFFSET");
    reveal_strlit("SPUR_NODE_RANK");
    reveal_strlit("SPUR_PEER_NODES");
    reveal_strlit("SPUR_TARGET_NODE");
    reveal_strlit("LOCAL_RANK");
    reveal_strlit("LOCAL_WORLD_SIZE");
    reveal_strlit("NPROC_PER_NODE");
    reveal_strlit("NODE_RANK");
    reveal_strlit("MASTER_ADDR");
    reveal_strlit("MASTER_PORT");
    reveal_strlit("WORLD_SIZE");
    reveal_strlit("RANK");
}

proof fn lemma_twins()
    ensures
        slurm_twin("SPUR_JOB_ID"@) == "SLURM_JOB_ID"@,
        slurm_twin("SPUR_JOBID"@) == "SLURM_JOBID"@,
        slurm_twin("SPUR_JOB_NAME"@) == "SLURM_JOB_NAME"@,
        slurm_twin("SPUR_JOB_PARTITION"@) == "SLURM_JOB_PARTITION"@,
        slurm_twin("SPUR_JOB_ACCOUNT"@) == "SLURM_JOB_ACCOUNT"@,
        slurm_twin("SPUR_JOB_QOS"@) == "SLURM_JOB_QOS"@,
        slurm_twin("SPUR_NNODES"@) == "SLURM_NNODES"@,
        slurm_twin("SPUR_JOB_NUM_NODES"@) == "SLURM_JOB_NUM_NODES"@,
        slurm_twin("SPUR_NTASKS"@) == "SLURM_NTASKS"@,
        slurm_twin("SPUR_NPROCS"@) == "SLURM_NPROCS"@,
        slurm_twin("SPUR_CPUS_PER_TASK"@) == "SLURM_CPUS_PER_TASK"@,
        slurm_twin("SPUR_CPUS_ON_NODE"@) == "SLURM_CPUS_ON_NODE"@,
        slurm_twin("SPUR_TASKS_PER_NODE"@) == "SLURM_TASKS_PER_NODE"@,
        slurm_twin("SPUR_NODEID"@) == "SLURM_NODEID"@,
        slurm_twin("SPUR_NODELIST"@) == "SLURM_NODELIST"@,
        slurm_twin("SPUR_JOB_NODELIST"@) == "SLURM_JOB_NODELIST"@,
        slurm_twin("SPURD_NODENAME"@) == "SLURMD_NODENAME"@,
{
    reveal_strlit("SPUR");
    reveal_strlit("SLURM");
    reveal_strlit("SPUR_JOB_ID");
    reveal_strlit("SLURM_JOB_ID");
    assert("SPUR_JOB_ID"@.take(4) =~= "SPUR"@);
    assert("SLURM"@ + "SPUR_JOB_ID"@.skip(4) =~= "SLURM_JOB_ID"@);
    reveal_strlit("SPUR_JOBID");
    reveal_strlit("SLURM_JOBID");
    assert("SPUR_JOBID"@.take(4) =~= "SPUR"@);
    assert("SLURM"@ + "SPUR_JOBID"@.skip(4) =~= "SLURM_JOBID"@);
    reveal_strlit("SPUR_JOB_NAME");
    reveal_strlit("SLURM_JOB_NAME");
    assert("SPUR_JOB_NAME"@.take(4) =~= "SPUR"@);
    assert("SLURM"@ + "SPUR_JOB_NAME"@.skip(4) =~= "SLURM_JOB_NAME"@);
    reveal_strlit("SPUR_JOB_PARTITION");
    reveal_strlit("SLURM_JOB_PARTITION");
    assert("SPUR_JOB_PARTITION"@.take(4) =~= "SPUR"@);
    assert("SLURM"@ + "SPUR_JOB_PARTITION"@.skip(4) =~= "SLURM_JOB_PARTITION"@);
    reveal_strlit("SPUR_JOB_ACCOUNT");
    reveal_strlit("SLURM_JOB_ACCOUNT");
    assert("SPUR_JOB_ACCOUNT"@.take(4) =~= "SPUR"@);
    assert("SLURM"@ + "SPUR_JOB_ACCOUNT"@.skip(4) =~= "SLURM_JOB_ACCOUNT"@);
    reveal_strlit("SPUR_JOB_QOS");
    reveal_strlit("SLURM_JOB_QOS");
    assert("SPUR_JOB_QOS"@.take(4) =~= "SPUR"@);
    assert("SLURM"@ + "SPUR_JOB_QOS"@.skip(4) =~= "SLURM_JOB_QOS"@);
    reveal_strlit("SPUR_NNODES");
    reveal_strlit("SLURM_NNODES");
    assert("SPUR_NNODES"@.take(4) =~= "SPUR"@);
    assert("SLURM"@ + "SPUR_NNODES"@.skip(4) =~= "SLURM_NNODES"@);
    reveal_strlit("SPUR_JOB_NUM_NODES");
    reveal_strlit("SLURM_JOB_NUM_NODES");
    assert("SPUR_JOB_NUM_NODES"@.take(4) =~= "SPUR"@);
    assert("SLURM"@ + "SPUR_JOB_NUM_NODES"@.skip(4) =~= "SLURM_JOB_NUM_NODES"@);
    reveal_strlit("SPUR_NTASKS");
    reveal_strlit("SLURM_NTASKS");
    assert("SPUR_NTASKS"@.take(4) =~= "SPUR"@);
    assert("SLURM"@ + "SPUR_NTASKS"@.skip(4) =~= "SLURM_NTASKS"@);
    reveal_strlit("SPUR_NPROCS");
    reveal_strlit("SLURM_NPROCS");
    assert("SPUR_NPROCS"@.take(4) =~= "SPUR"@);
    assert("SLURM"@ + "SPUR_NPROCS"@.skip(4) =~= "SLURM_NPROCS"@);
    reveal_strlit("SPUR_CPUS_PER_TASK");
    reveal_strlit("SLURM_CPUS_PER_TASK");
    assert("SPUR_CPUS_PER_TASK"@.take(4) =~= "SPUR"@);
    assert("SLURM"@ + "SPUR_CPUS_PER_TASK"@.skip(4) =~= "SLURM_CPUS_PER_TASK"@);
    reveal_strlit("SPUR_CPUS_ON_NODE");
    reveal_strlit("SLURM_CPUS_ON_NODE");
    assert("SPUR_CPUS_ON_NODE"@.take(4) =~= "SPUR"@);
    assert("SLURM"@ + "SPUR_CPUS_ON_NODE"@.skip(4) =~= "SLURM_CPUS_ON_NODE"@);
    reveal_strlit("SPUR_TASKS_PER_NODE");
    reveal_strlit("SLURM_TASKS_PER_NODE");
    assert("SPUR_TASKS_PER_NODE"@.take(4) =~= "SPUR"@);
    assert("SLURM"@ + "SPUR_TASKS_PER_NODE"@.skip(4) =~= "SLURM_TASKS_PER_NODE"@);
    reveal_strlit("SPUR_NODEID");
    reveal_strlit("SLURM_NODEID");
    assert("SPUR_NODEID"@.take(4) =~= "SPUR"@);
    assert("SLURM"@ + "SPUR_NODEID"@.skip(4) =~= "SLURM_NODEID"@);
    reveal_strlit("SPUR_NODELIST");
    reveal_strlit("SLURM_NODELIST");
    assert("SPUR_NODELIST"@.take(4) =~= "SPUR"@);
    assert("SLURM"@ + "SPUR_NODELIST"@.skip(4) =~= "SLURM_NODELIST"@);
    reveal_strlit("SPUR_JOB_NODELIST");
    reveal_strlit("SLURM_JOB_NODELIST");
    assert("SPUR_JOB_NODELIST"@.take(4) =~= "SPUR"@);
    assert("SLURM"@ + "SPUR_JOB_NODELIST"@.skip(4) =~= "SLURM_JOB_NODELIST"@);
    reveal_strlit("SPURD_NODENAME");
    reveal_strlit("SLURMD_NODENAME");
    assert("SPURD_NODENAME"@.take(4) =~= "SPUR"@);
    assert("SLURM"@ + "SPURD_NODENAME"@.skip(4) =~= "SLURMD_NODENAME"@);
}

/// A job finds its own number, name and whose it is in its environment, under both
/// names of each variable.
pub proof fn law_job_knows_itself(
    req: LaunchJobRequestView,
    spec: WireJobSpecView,
    key: JobExecutionKeyView,
    namespace: Seq<char>,
    tasks: nat,
    cpus: nat,
    rank: nat,
)
    requires
        tasks == if spec.tasks_per_node > 0 { spec.tasks_per_node } else { 1 },
        cpus == tasks * if spec.cpus_per_task > 0 { spec.cpus_per_task } else { 1 },
        rank * tasks <= req.task_offset < (rank + 1) * tasks,
    ensures
        ({
            let env = base_env(req, spec, key, namespace);
            &&& env.contains_key("SPUR_JOB_ID"@) && env["SPUR_JOB_ID"@] == decimal(req.job_id as nat)
            &&& env.contains_key("SLURM_JOB_ID"@) && env["SLURM_JOB_ID"@] == decimal(req.job_id as nat)
            &&& env.contains_key("SPUR_JOBID"@) && env["SPUR_JOBID"@] == decimal(req.job_id as nat)
            &&& env.contains_key("SLURM_JOBID"@) && env["SLURM_JOBID"@] == decimal(req.job_id as nat)
            &&& env.contains_key("SPUR_JOB_NAME"@) && env["SPUR_JOB_NAME"@] == spec.name
            &&& env.contains_key("SLURM_JOB_NAME"@) && env["SLURM_JOB_NAME"@] == spec.name
            &&& env.contains_key("SPUR_JOB_PARTITION"@) && env["SPUR_JOB_PARTITION"@] == spec.partition
            &&& env.contains_key("SLURM_JOB_PARTITION"@) && env["SLURM_JOB_PARTITION"@] == spec.partition
            &&& env.contains_key("SPUR_JOB_ACCOUNT"@) && env["SPUR_JOB_ACCOUNT"@] == spec.account
            &&& env.contains_key("SLURM_JOB_ACCOUNT"@) && env["SLURM_JOB_ACCOUNT"@] == spec.account
            &&& env.contains_key("SPUR_JOB_QOS"@) && env["SPUR_JOB_QOS"@] == spec.qos
            &&& env.contains_key("SLURM_JOB_QOS"@) && env["SLURM_JOB_QOS"@] == spec.qos
        }),
{
    lemma_twins();
    lemma_rank(req, spec, tasks, rank);
    lemma_names_are_apart();
}

/// A job finds in its environment how many nodes, tasks and CPUs it has: on each node
/// the CPUs of each of the tasks there, and at least one.
pub proof fn law_job_knows_its_size(
    req: LaunchJobRequestView,
    spec: WireJobSpecView,
    key: JobExecutionKeyView,
    namespace: Seq<char>,
    tasks: nat,
    cpus: nat,
    rank: nat,
)
    requires
        tasks == if spec.tasks_per_node > 0 { spec.tasks_per_node } else { 1 },
        cpus == tasks * if spec.cpus_per_task > 0 { spec.cpus_per_task } else { 1 },
        rank * tasks <= req.task_offset < (rank + 1) * tasks,
    ensures
        ({
            let env = base_env(req, spec, key, namespace);
            &&& env.contains_key("SPUR_NNODES"@) && env["SPUR_NNODES"@] == decimal(req.peer_nodes.len())
            &&& env.contains_key("SLURM_NNODES"@) && env["SLURM_NNODES"@] == decimal(req.peer_nodes.len())
            &&& env.contains_key("SPUR_JOB_NUM_NODES"@) && env["SPUR_JOB_NUM_NODES"@] == decimal(req.peer_nodes.len())
            &&& env.contains_key("SLURM_JOB_NUM_NODES"@) && env["SLURM_JOB_NUM_NODES"@] == decimal(req.peer_nodes.len())
            &&& env.contains_key("SPUR_NTASKS"@) && env["SPUR_NTASKS"@] == decimal(spec.num_tasks as nat)
            &&& env.contains_key("SLURM_NTASKS"@) && env["SLURM_NTASKS"@] == decimal(spec.num_tasks as nat)
            &&& env.contains_key("SPUR_NPROCS"@) && env["SPUR_NPROCS"@] == decimal(spec.num_tasks as nat)
            &&& env.contains_key("SLURM_NPROCS"@) && env["SLURM_NPROCS"@] == decimal(spec.num_tasks as nat)
            &&& env.contains_key("SPUR_CPUS_PER_TASK"@) && env["SPUR_CPUS_PER_TASK"@] == decimal(spec.cpus_per_task as nat)
            &&& env.contains_key("SLURM_CPUS_PER_TASK"@) && env["SLURM_CPUS_PER_TASK"@] == decimal(spec.cpus_per_task as nat)
            &&& env.contains_key("SPUR_CPUS_ON_NODE"@) && env["SPUR_CPUS_ON_NODE"@] == decimal(cpus)
            &&& env.contains_key("SLURM_CPUS_ON_NODE"@) && env["SLURM_CPUS_ON_NODE"@] == decimal(cpus)
            &&& env.contains_key("SPUR_TASKS_PER_NODE"@) && env["SPUR_TASKS_PER_NODE"@] == decimal(tasks)
            &&& env.contains_key("SLURM_TASKS_PER_NODE"@) && env["SLURM_TASKS_PER_NODE"@] == decimal(tasks)
        }),
{
    lemma_twins();
    lemma_rank(req, spec, tasks, rank);
    lemma_names_are_apart();
}

/// A job finds in its environment which of its nodes it is on: the nodes before it
/// have the tasks that come before its own.
pub proof fn law_job_knows_its_place(
    req: LaunchJobRequestView,
    spec: WireJobSpecView,
    key: JobExecutionKeyView,
    namespace: Seq<char>,
    tasks: nat,
    cpus: nat,
    rank: nat,
)
    requires
        tasks == if spec.tasks_per_node > 0 { spec.tasks_per_node } else { 1 },
        cpus == tasks * if spec.cpus_per_task > 0 { spec.cpus_per_task } else { 1 },
        rank * tasks <= req.task_offset < (rank + 1) * tasks,
    ensures
        ({
            let env = base_env(req, spec, key, namespace);
            &&& env.contains_key("SPUR_NODEID"@) && env["SPUR_NODEID"@] == decimal(rank)
            &&& env.contains_key("SLURM_NODEID"@) && env["SLURM_NODEID"@] == decimal(rank)
            &&& env.contains_key("SPUR_NODELIST"@) && env["SPUR_NODELIST"@] == spec.nodelist
            &&& env.contains_key("SLURM_NODELIST"@) && env["SLURM_NODELIST"@] == spec.nodelist
            &&& env.contains_key("SPUR_JOB_NODELIST"@) && env["SPUR_JOB_NODELIST"@] == spec.nodelist
            &&& env.contains_key("SLURM_JOB_NODELIST"@) && env["SLURM_JOB_NODELIST"@] == spec.nodelist
            &&& env.contains_key("SPURD_NODENAME"@) && env["SPURD_NODENAME"@] == req.target_node
            &&& env.contains_key("SLURMD_NODENAME"@) && env["SLURMD_NODENAME"@] == req.target_node
        }),
{
    lemma_twins();
    lemma_rank(req, spec, tasks, rank);
    lemma_names_are_apart();
}

/// The processes of a job that spans nodes find each other: each knows its rank, how
/// many there are, and the address of the one with rank zero.
pub proof fn law_job_finds_its_peers(
    req: LaunchJobRequestView,
    spec: WireJobSpecView,
    key: JobExecutionKeyView,
    namespace: Seq<char>,
    tasks: nat,
    cpus: nat,
    rank: nat,
)
    requires
        tasks == if spec.tasks_per_node > 0 { spec.tasks_per_node } else { 1 },
        cpus == tasks * if spec.cpus_per_task > 0 { spec.cpus_per_task } else { 1 },
        rank * tasks <= req.task_offset < (rank + 1) * tasks,
    ensures
        ({
            let env = base_env(req, spec, key, namespace);
            &&& env.contains_key("SPUR_TASK_OFFSET"@) && env["SPUR_TASK_OFFSET"@] == decimal(req.task_offset as nat)
            &&& env.contains_key("SPUR_NODE_RANK"@) && env["SPUR_NODE_RANK"@] == decimal(rank)
            &&& env.contains_key("LOCAL_RANK"@) && env["LOCAL_RANK"@] == "0"@
            &&& env.contains_key("LOCAL_WORLD_SIZE"@) && env["LOCAL_WORLD_SIZE"@] == decimal(tasks)
            &&& env.contains_key("NPROC_PER_NODE"@) && env["NPROC_PER_NODE"@] == decimal(tasks)
            &&& env.contains_key("NODE_RANK"@) && env["NODE_RANK"@] == decimal(rank)
            &&& req.peer_nodes.len() > 0 ==> env.contains_key("SPUR_PEER_NODES"@)
                && env["SPUR_PEER_NODES"@] == joined(req.peer_nodes, ","@)
            &&& req.target_node.len() > 0 ==> env.contains_key("SPUR_TARGET_NODE"@)
                && env["SPUR_TARGET_NODE"@] == req.target_node
            &&& req.peer_nodes.len() > 1 ==> {
                &&& env.contains_key("WORLD_SIZE"@) && env["WORLD_SIZE"@] == decimal(
                    req.peer_nodes.len(),
                )
                &&& env.contains_key("RANK"@) && env["RANK"@] == decimal(rank)
                &&& env.contains_key("MASTER_ADDR"@) && env["MASTER_ADDR"@] == "rank-0."@
                    + service_name(key) + "."@ + namespace + ".svc.cluster.local"@
                &&& env.contains_key("MASTER_PORT"@) && env["MASTER_PORT"@] == "29500"@
            }
        }),
{
    lemma_rank(req, spec, tasks, rank);
    lemma_twins();
    lemma_names_are_apart();
    reveal_strlit("rank-0.");
    reveal_strlit("rank-");
    reveal_strlit(".");
    assert(decimal(0) =~= seq!['0']);
    assert("rank-"@ + decimal(0) + "."@ =~= "rank-0."@);
}

proof fn lemma_rank(req: LaunchJobRequestView, spec: WireJobSpecView, tasks: nat, rank: nat)
    requires
        tasks == if spec.tasks_per_node > 0 { spec.tasks_per_node } else { 1 },
        rank * tasks <= req.task_offset < (rank + 1) * tasks,
    ensures
        node_tasks(spec) == tasks,
        node_rank(req, spec) == rank,
        node_cpus(spec) == tasks * if spec.cpus_per_task > 0 { spec.cpus_per_task } else { 1 },
{
    let left = req.task_offset - rank * tasks;
    assert(0 <= left < tasks) by (nonlinear_arith)
        requires
            left == req.task_offset - rank * tasks,
            rank * tasks <= req.task_offset < (rank + 1) * tasks,
    ;
    vstd::arithmetic::div_mod::lemma_fundamental_div_mod_converse(
        req.task_offset as int,
        tasks as int,
        rank as int,
        left,
    );
    assert(rank <= req.task_offset) by (nonlinear_arith)
        requires
            rank * tasks <= req.task_offset,
            tasks >= 1,
    ;
}

/// The pod of a job runs its image and its command, in its directory, on the node
/// that it was sent to, once, and without the credentials of the cluster.
pub proof fn law_pod_runs_what_was_asked(
    pod: PodView,
    plan: LaunchPlanView,
    req: LaunchJobRequestView,
    spec: WireJobSpecView,
    pod_dispatch_token: Seq<char>,
    secret_env: Map<Seq<char>, Seq<char>>,
    nvidia: bool,
)
    requires
        is_launch_pod(pod, plan, req, spec, pod_dispatch_token, secret_env, nvidia),
    ensures
        pod.metadata.name == Some(plan.pod_name),
        pod.metadata.namespace == Some(plan.namespace),
        pod.metadata.owner_references == Some(seq![plan.owner_reference]),
        pod.spec matches Some(what) && {
            &&& what.containers.len() == 1
            &&& what.restart_policy == Some("Never"@)
            &&& what.automount_service_account_token == Some(false)
            &&& req.target_node.len() > 0 ==> what.node_name == Some(req.target_node)
            &&& what.host_network == Some(true) <==> spec.host_network
            &&& what.host_ipc == Some(true) <==> spec.host_ipc
            &&& what.host_pid is None
            &&& spec.container_image.len() > 0 ==> what.containers[0].image == Some(
                spec.container_image,
            )
            &&& spec.argv.len() > 0 ==> what.containers[0].command == Some(spec.argv)
            &&& spec.argv.len() == 0 && spec.script.len() > 0 ==> what.containers[0].command == Some(
                seq!["sh"@, "-c"@, spec.script],
            )
            &&& spec.container_workdir.len() > 0 ==> what.containers[0].working_dir == Some(
                spec.container_workdir,
            )
            &&& spec.container_workdir.len() == 0 && spec.work_dir.len() > 0
                ==> what.containers[0].working_dir == Some(spec.work_dir)
            &&& spec.privileged <==> what.containers[0].security_context is Some
            &&& what.containers[0].security_context matches Some(context) ==> context.privileged
                == Some(true)
            &&& what.containers[0].resources matches Some(resources) ==> resources.limits
                == resources.requests
        },
{
}

/// A pod may use exactly the CPUs, the memory and the GPUs that were allocated to
/// it, and of any other resource, or of these where the job says so itself, what
/// the job asked for.
pub proof fn law_pod_gets_what_was_allocated(
    pod: PodView,
    plan: LaunchPlanView,
    req: LaunchJobRequestView,
    spec: WireJobSpecView,
    pod_dispatch_token: Seq<char>,
    secret_env: Map<Seq<char>, Seq<char>>,
    nvidia: bool,
    name: Seq<char>,
)
    requires
        is_launch_pod(pod, plan, req, spec, pod_dispatch_token, secret_env, nvidia),
    ensures
        pod.spec->0.containers[0].resources matches Some(resources) && resources.limits matches Some(
            limits,
        ) && {
            let given = if req.allocated is None {
                None
            } else if name == "cpu"@ && req.allocated->0.cpus > 0 {
                Some(decimal(req.allocated->0.cpus as nat))
            } else if name == "memory"@ && req.allocated->0.memory_mb > 0 {
                Some(decimal(req.allocated->0.memory_mb as nat) + "Mi"@)
            } else if name == "nvidia.com/gpu"@ && nvidia && req.allocated->0.gpus > 0 {
                Some(decimal(req.allocated->0.gpus as nat))
            } else if name == "amd.com/gpu"@ && !nvidia && req.allocated->0.gpus > 0 {
                Some(decimal(req.allocated->0.gpus as nat))
            } else {
                None
            };
            &&& spec.extra_resources.contains_key(name) ==> limits.contains_key(name)
                && limits[name] == spec.extra_resources[name]
            &&& !spec.extra_resources.contains_key(name) ==> (limits.contains_key(name) <==> given is Some)
            &&& !spec.extra_resources.contains_key(name) && given is Some ==> limits[name]
                == given->0
        },
{
    reveal_strlit("cpu");
    reveal_strlit("memory");
    reveal_strlit("nvidia.com/gpu");
    reveal_strlit("amd.com/gpu");
    differ("cpu"@, "memory"@, 0);
    differ("cpu"@, "nvidia.com/gpu"@, 0);
    differ("cpu"@, "amd.com/gpu"@, 0);
    differ("memory"@, "nvidia.com/gpu"@, 0);
    differ("memory"@, "amd.com/gpu"@, 0);
    differ("nvidia.com/gpu"@, "amd.com/gpu"@, 0);
}

/// What a job sets in its environment takes precedence over what it is given, and a
/// secret over both: the last of the variables with a name is the one that counts.
pub proof fn law_own_variables_take_precedence(
    env: Seq<EnvVarView>,
    base: Map<Seq<char>, Seq<char>>,
    gpu: Seq<EnvVarView>,
    own: Map<Seq<char>, Seq<char>>,
    secrets: Map<Seq<char>, Seq<char>>,
    name: Seq<char>,
)
    requires
        is_launch_env(env, base, gpu, own, secrets),
    ensures
        secrets.contains_key(name) && secrets[name].contains('/') ==> named(env, name).len() > 0
            && named(env, name).last().secret_key_ref is Some,
        !secrets.contains_key(name) && own.contains_key(name) ==> named(env, name).len() > 0 && named(
            env,
            name,
        ).last().value == Some(own[name]),
        !secrets.contains_key(name) && !own.contains_key(name) && named(gpu, name).len() == 0
            && base.contains_key(name) ==> named(env, name).len() == 1 && named(env, name)[0].value
            == Some(base[name]),
        !secrets.contains_key(name) && !own.contains_key(name) && named(gpu, name).len() == 0
            && !base.contains_key(name) ==> named(env, name).len() == 0,
{
    assert(named(env, name) == map_named(base, name) + named(gpu, name) + map_named(own, name)
        + secret_named(secrets, name));
    if secrets.contains_key(name) && secrets[name].contains('/') {
        let text = secrets[name];
        crate::text::lemma_position(text, crate::text::char_is('/'));
        let i = choose|i: int| 0 <= i < text.len() && text[i] == '/';
        assert(crate::text::char_is('/')(text[i]));
    }
}

/// The peers of a job reach its first pod under the address that they are given:
/// its host name, in the service, in the namespace.
pub proof fn law_first_pod_has_the_master_address(
    pod: PodView,
    plan: LaunchPlanView,
    req: LaunchJobRequestView,
    spec: WireJobSpecView,
    pod_dispatch_token: Seq<char>,
    secret_env: Map<Seq<char>, Seq<char>>,
    nvidia: bool,
    rank: nat,
)
    requires
        is_launch_pod(pod, plan, req, spec, pod_dispatch_token, secret_env, nvidia),
        req.peer_nodes.len() > 1,
        req.target_node.len() > 0,
        plan.service_name == Some(service_name(plan.identity.key)),
        rank == req.task_offset as int / (if spec.tasks_per_node > 0 { spec.tasks_per_node as int } else { 1 }),
    ensures
        pod.spec->0.hostname == Some("rank-"@ + decimal(rank)),
        pod.spec->0.subdomain == plan.service_name,
        rank == 0 ==> pod.spec->0.hostname->0 + "."@ + pod.spec->0.subdomain->0 + "."@
            + plan.namespace + ".svc.cluster.local"@ == base_env(
            req,
            spec,
            plan.identity.key,
            plan.namespace,
        )["MASTER_ADDR"@],
{
    lemma_names_are_apart();
    assert(req.task_offset as int / node_tasks(spec) as int <= req.task_offset) by {
        vstd::arithmetic::div_mod::lemma_div_is_ordered_by_denominator(
            req.task_offset as int,
            1,
            node_tasks(spec) as int,
        );
    }
}

/// A launch goes on only for the job whose spec was fingerprinted when it was
/// submitted, in that job's namespace and owned by it; peers share a service.
pub proof fn law_plan_is_for_the_submitted_job(
    req: LaunchJobRequestView,
    identity: PodExecutionIdentityView,
    job: SpurJobView,
    launchable: Result<(), Seq<char>>,
    fingerprint: Result<Seq<char>, Seq<char>>,
)
    ensures
        planned(req, identity, job, launchable, fingerprint) matches Ok(plan) ==> {
            &&& launchable is Ok
            &&& fingerprint is Ok
            &&& job.status is Some
            &&& job.status->0.launch_spec_sha256 == Some(fingerprint->Ok_0)
            &&& req.spec is Some
            &&& plan.identity == identity
            &&& job.metadata.namespace == Some(plan.namespace)
            &&& job.metadata.name == Some(plan.owner_reference.name)
            &&& job.metadata.uid == Some(plan.owner_reference.uid)
            &&& plan.owner_reference.controller == Some(true)
            &&& plan.owner_reference.kind == "SpurJob"@
            &&& plan.owner_reference.api_version == "spur.amd.com/v1alpha1"@
            &&& plan.service_name is Some <==> req.peer_nodes.len() > 1
        },
{
}

/// The execution that is launched is the one that was asked for, completely named.
pub proof fn law_launched_identity_is_the_requested_one(req: LaunchJobRequestView)
    ensures
        launching_identity(req) matches Ok(identity) ==> {
            &&& identity.key.job_id == req.job_id
            &&& identity.key.submission_generation == req.submission_generation
            &&& identity.key.run_attempt == req.run_attempt
            &&& identity.worker_incarnation == req.worker_incarnation
            &&& identity.submission_token == req.submission_token
            &&& identity.pod_dispatch_token.len() == 0
        },
        launching_identity(req) is Ok <==> req.target_node.len() > 0 && req.submission_generation.len()
            > 0 && req.run_attempt > 0 && req.worker_incarnation.len() > 0
            && req.submission_token.len() > 0,
{
}

/// A pod that is there already is taken over only where it is of this execution and
/// owned by this job; what is recorded is the pod that the cluster answered with,
/// and a failure is handed on in the cluster's words.
pub proof fn law_settled_pod_is_the_answered_one(
    plan: LaunchPlanView,
    identity: PodExecutionIdentityView,
    desired: PodView,
    reply: CreateReply<Pod>,
)
    ensures
        reply matches CreateReply::Created(pod) ==> (pod_settled(plan, identity, desired, reply) matches Ok(
            step,
        ) ==> step == LaunchStepView::RecordProvenance(pod@)),
        reply matches CreateReply::Exists(Ok(pod)) ==> (pod_settled(plan, identity, desired, reply) matches Ok(
            step,
        ) ==> step == LaunchStepView::RecordProvenance(pod@) && identity.matches_pod(pod@)
            && controlled_by(pod@.metadata, plan.owner_reference.uid) && pod_agrees(pod@, desired)),
        reply matches CreateReply::Exists(Err(_)) ==> pod_settled(plan, identity, desired, reply) is Err,
        reply matches CreateReply::Failed(error) ==> pod_settled(plan, identity, desired, reply)
            == Ok::<LaunchStepView, StatusView>(
            LaunchStepView::Respond(LaunchJobResponseView { success: false, error: error@ }),
        ),
{
}

/// The service of an execution has no address of its own, selects the pods of that
/// execution and no others, before they are ready too, and is owned by the job.
pub proof fn law_service_selects_its_execution(
    identity: PodExecutionIdentityView,
    labels: Map<Seq<char>, Seq<char>>,
    namespace: Seq<char>,
    owner_reference: OwnerReferenceView,
    service_dispatch_token: Seq<char>,
)
    ensures
        ({
            let service = headless_service(
                identity,
                labels,
                namespace,
                owner_reference,
                service_dispatch_token,
            );
            &&& service.metadata.name == Some(service_name(identity.key))
            &&& service.metadata.namespace == Some(namespace)
            &&& service.metadata.owner_references == Some(seq![owner_reference])
            &&& service.spec is Some
            &&& service.spec->0.cluster_ip == Some("None"@)
            &&& service.spec->0.publish_not_ready_addresses == Some(true)
            &&& service.spec->0.external_ips is None
            &&& service.spec->0.selector matches Some(selector) && selector.dom() == set![
                "spur.amd.com/job-id"@,
                "spur.amd.com/submission-generation"@,
                "spur.amd.com/run-attempt"@,
            ] && selector["spur.amd.com/job-id"@] == decimal(identity.key.job_id as nat)
                && selector["spur.amd.com/submission-generation"@]
                == identity.key.submission_generation && selector["spur.amd.com/run-attempt"@]
                == decimal(identity.key.run_attempt as nat)
        }),
{
    reveal_strlit("spur.amd.com/job-id");
    reveal_strlit("spur.amd.com/submission-generation");
    reveal_strlit("spur.amd.com/run-attempt");
    differ("spur.amd.com/job-id"@, "spur.amd.com/submission-generation"@, 0);
    differ("spur.amd.com/job-id"@, "spur.amd.com/run-attempt"@, 0);
    differ("spur.amd.com/submission-generation"@, "spur.amd.com/run-attempt"@, 0);
    let selector = identity.execution_labels();
    assert(selector.dom() =~= set![
        "spur.amd.com/job-id"@,
        "spur.amd.com/submission-generation"@,
        "spur.amd.com/run-attempt"@,
    ]);
}

/// The pod's own environment is the one described: the job's variables, those it
/// asks for and those from secrets, the last of them counting.
pub proof fn law_pod_has_the_jobs_environment(
    pod: PodView,
    plan: LaunchPlanView,
    req: LaunchJobRequestView,
    spec: WireJobSpecView,
    pod_dispatch_token: Seq<char>,
    secret_env: Map<Seq<char>, Seq<char>>,
    nvidia: bool,
    name: Seq<char>,
)
    requires
        is_launch_pod(pod, plan, req, spec, pod_dispatch_token, secret_env, nvidia),
        name != "GPU_ENABLE_PAL"@,
        name != "NCCL_SOCKET_IFNAME"@,
    ensures
        pod.spec is Some && (pod.spec->0).containers.len() == 1,
        (pod.spec->0).containers[0].env is Some,
        ({
            let env = (pod.spec->0).containers[0].env->0;
            let base = base_env(req, spec, plan.identity.key, plan.namespace);
            &&& secret_env.contains_key(name) && secret_env[name].contains('/') ==> named(
                env,
                name,
            ).len() > 0 && named(env, name).last().secret_key_ref is Some
            &&& !secret_env.contains_key(name) && spec.environment.contains_key(name) ==> named(
                env,
                name,
            ).len() > 0 && named(env, name).last().value == Some(spec.environment[name])
            &&& !secret_env.contains_key(name) && !spec.environment.contains_key(name)
                && base.contains_key(name) ==> named(env, name).len() == 1 && named(
                env,
                name,
            )[0].value == Some(base[name])
            &&& !secret_env.contains_key(name) && !spec.environment.contains_key(name)
                && !base.contains_key(name) ==> named(env, name).len() == 0
        }),
{
    let env = (pod.spec->0).containers[0].env->0;
    let gpu = gpu_vars(allocated_gpus(req), nvidia, req.peer_nodes.len() > 1);
    let found = choose|e: Seq<EnvVarView>| #[trigger]
        is_pod_env(e, plan, req, spec, secret_env, nvidia) && pod == launch_pod(
            plan,
            req,
            spec,
            pod_dispatch_token,
            nvidia,
            e,
        );
    assert(env == found);
    assert(named(gpu, name) =~= Seq::<EnvVarView>::empty()) by {
        lemma_gpu_names(allocated_gpus(req), nvidia, req.peer_nodes.len() > 1, name);
    }
    law_own_variables_take_precedence(
        env,
        base_env(req, spec, plan.identity.key, plan.namespace),
        gpu,
        spec.environment,
        secret_env,
        name,
    );
}

proof fn lemma_gpu_names(gpus: u32, nvidia: bool, multi_node: bool, name: Seq<char>)
    requires
        name != "GPU_ENABLE_PAL"@,
        name != "NCCL_SOCKET_IFNAME"@,
    ensures
        named(gpu_vars(gpus, nvidia, multi_node), name).len() == 0,
{
    let vars = gpu_vars(gpus, nvidia, multi_node);
    let found = named(vars, name);
    if found.len() > 0 {
        crate::accounts::lemma_filter_members(vars, crate::envvars::has_name(name), found[0]);
        assert(found.contains(found[0]));
        let i = choose|i: int| 0 <= i < vars.len() && vars[i] == found[0];
        assert(vars[i].name == name);
    }
}

/// A job with GPUs is told what their runtime needs: on nodes that are not
/// NVIDIA's to leave out one path, and with peers which interface to use. A job
/// without GPUs is told neither.
pub proof fn law_gpu_runtime_is_told_what_it_needs(gpus: u32, nvidia: bool, multi_node: bool)
    ensures
        gpus == 0 ==> gpu_vars(gpus, nvidia, multi_node).len() == 0,
        gpus > 0 ==> ({
            let vars = gpu_vars(gpus, nvidia, multi_node);
            let own: int = if nvidia { 0 } else { 1 };
            &&& vars.len() == own + (if multi_node { 1int } else { 0 })
            &&& !nvidia ==> vars[0].name == "GPU_ENABLE_PAL"@ && vars[0].value == Some("0"@)
            &&& multi_node ==> vars[own].name == "NCCL_SOCKET_IFNAME"@ && vars[own].value == Some(
                "eth0"@,
            )
        }),
{
}

/// What a job mounts is in its pod: each volume it asks for, where it asks for
/// it, and shared memory of the size it asks for.
pub proof fn law_pod_mounts_what_was_asked(
    pod: PodView,
    plan: LaunchPlanView,
    req: LaunchJobRequestView,
    spec: WireJobSpecView,
    pod_dispatch_token: Seq<char>,
    secret_env: Map<Seq<char>, Seq<char>>,
    nvidia: bool,
)
    requires
        is_launch_pod(pod, plan, req, spec, pod_dispatch_token, secret_env, nvidia),
    ensures
        ({
            let volumes = volumes_of(spec.container_mounts);
            let mounts = volume_mounts_of(spec.container_mounts);
            let what = pod.spec->0;
            let container = what.containers[0];
            &&& spec.shm_size.len() == 0 && volumes.len() > 0 ==> what.volumes == Some(volumes)
            &&& spec.shm_size.len() == 0 && mounts.len() > 0 ==> container.volume_mounts == Some(
                mounts,
            )
            &&& spec.shm_size.len() == 0 && volumes.len() == 0 ==> what.volumes is None
            &&& spec.shm_size.len() == 0 && mounts.len() == 0 ==> container.volume_mounts is None
            &&& spec.shm_size.len() > 0 ==> what.volumes is Some && container.volume_mounts is Some
                && (what.volumes->0).drop_last() == volumes && (
            container.volume_mounts->0).drop_last() == mounts && (what.volumes->0).last().name
                == (container.volume_mounts->0).last().name && (
            container.volume_mounts->0).last().mount_path == "/dev/shm"@ && (
            container.volume_mounts->0).last().read_only is None && (
            what.volumes->0).last().empty_dir is Some && ((
            what.volumes->0).last().empty_dir->0).size_limit == Some(spec.shm_size) && ((
            what.volumes->0).last().empty_dir->0).medium == Some("Memory"@) && (
            what.volumes->0).last().host_path is None
        }),
{
    let what = pod.spec->0;
    let container = what.containers[0];
    if spec.shm_size.len() > 0 {
        assert((what.volumes->0).drop_last() =~= volumes_of(spec.container_mounts));
        assert((container.volume_mounts->0).drop_last() =~= volume_mounts_of(
            spec.container_mounts,
        ));
    }
}

/// A pod carries the annotations and the labels of its execution, and where
/// nothing else was asked for it runs a plain image that waits.
pub proof fn law_pod_is_marked_and_has_defaults(
    pod: PodView,
    plan: LaunchPlanView,
    req: LaunchJobRequestView,
    spec: WireJobSpecView,
    pod_dispatch_token: Seq<char>,
    secret_env: Map<Seq<char>, Seq<char>>,
    nvidia: bool,
)
    requires
        is_launch_pod(pod, plan, req, spec, pod_dispatch_token, secret_env, nvidia),
    ensures
        pod.metadata.annotations == Some(
            (PodExecutionIdentityView {
                key: plan.identity.key,
                worker_incarnation: plan.identity.worker_incarnation,
                submission_token: plan.identity.submission_token,
                pod_dispatch_token,
            }).annotations(),
        ),
        pod.metadata.labels is Some,
        (pod.metadata.labels->0).contains_key("spur.amd.com/job-id"@),
        (pod.metadata.labels->0)["spur.amd.com/job-id"@] == decimal(
            plan.identity.key.job_id as nat,
        ),
        (pod.metadata.labels->0)["spur.amd.com/submission-generation"@]
            == plan.identity.key.submission_generation,
        (pod.metadata.labels->0)["spur.amd.com/run-attempt"@] == decimal(
            plan.identity.key.run_attempt as nat,
        ),
        (pod.metadata.labels->0).contains_key("spur.amd.com/managed-by"@),
        (pod.metadata.labels->0)["spur.amd.com/managed-by"@] == "spur-k8s-operator"@,
        ({
            let what = pod.spec->0;
            &&& spec.container_image.len() == 0 ==> what.containers[0].image == Some(
                "busybox:latest"@,
            )
            &&& spec.argv.len() == 0 && spec.script.len() == 0 ==> what.containers[0].command
                == Some(seq!["sleep"@, "infinity"@])
            &&& spec.container_workdir.len() == 0 && spec.work_dir.len() == 0
                ==> what.containers[0].working_dir is None
            &&& req.target_node.len() == 0 && req.peer_nodes.len() > 0 ==> what.node_name == Some(
                req.peer_nodes[0],
            )
            &&& req.target_node.len() == 0 && req.peer_nodes.len() == 0 ==> what.node_name is None
            &&& spec.host_network ==> what.dns_policy == Some("ClusterFirstWithHostNet"@)
            &&& !spec.host_network ==> what.dns_policy == Some("ClusterFirst"@)
            &&& req.peer_nodes.len() <= 1 || req.target_node.len() == 0 ==> what.hostname is None
                && what.subdomain is None
        }),
{
    reveal_strlit("spur.amd.com/job-id");
    reveal_strlit("spur.amd.com/submission-generation");
    reveal_strlit("spur.amd.com/run-attempt");
    reveal_strlit("spur.amd.com/managed-by");
    reveal_strlit("spur.amd.com/job-name");
    reveal_strlit("spur.amd.com/target-node");
    assert("spur.amd.com/job-id"@.len() == 19);
    assert("spur.amd.com/submission-generation"@.len() == 34);
    assert("spur.amd.com/run-attempt"@.len() == 24);
    assert("spur.amd.com/managed-by"@.len() == 23);
    assert("spur.amd.com/job-name"@.len() == 21);
    assert("spur.amd.com/target-node"@.len() == 24);
    assert("spur.amd.com/target-node"@[13] == 't');
    assert("spur.amd.com/run-attempt"@[13] == 'r');
}

/// A launch is planned where the job can be launched, still asks for what was
/// submitted, and is in a namespace under a name and a UID.
pub proof fn law_launchable_job_is_planned(
    req: LaunchJobRequestView,
    identity: PodExecutionIdentityView,
    job: SpurJobView,
    digest: Seq<char>,
)
    requires
        job.status is Some,
        job.metadata.namespace is Some && job.metadata.name is Some && job.metadata.uid is Some,
        req.spec is Some,
    ensures
        planned(req, identity, job, Ok(()), Ok(digest)) is Ok <==> (
        job.status->0).launch_spec_sha256 == Some(digest),
        planned(req, identity, job, Ok(()), Ok(digest)) matches Ok(plan) ==> plan.pod_name
            == pod_name_on(identity, name_of_lowered(lowercase(req.target_node)))
            && (req.peer_nodes.len() > 1 ==> plan.service_name == Some(service_name(identity.key))),
{
}

/// The service of an execution is the one that was created as asked for, or the
/// one that is there with the execution's name, token and owner and agrees with
/// what was asked for; any other is refused.
pub proof fn law_settled_service_is_the_executions(
    identity: PodExecutionIdentityView,
    owner_uid: Seq<char>,
    namespace: Seq<char>,
    token: Seq<char>,
    desired: ServiceView,
    service: Service,
    error: String,
)
    ensures
        service_settled(
            identity,
            owner_uid,
            namespace,
            token,
            desired,
            CreateReply::Created(service),
        ) is Ok <==> service_agrees(service@, desired),
        service_settled(
            identity,
            owner_uid,
            namespace,
            token,
            desired,
            CreateReply::Created(service),
        ) matches Ok(found) ==> found == service@,
        service_settled(
            identity,
            owner_uid,
            namespace,
            token,
            desired,
            CreateReply::Exists(Ok(service)),
        ) is Ok <==> service_agrees(service@, desired) && identity.owns_service(service@)
            && controlled_by(service@.metadata, owner_uid) && service@.metadata.annotations is Some
            && (service@.metadata.annotations->0).contains_key(SERVICE_DISPATCH_TOKEN_ANNOTATION@)
            && (service@.metadata.annotations->0)[SERVICE_DISPATCH_TOKEN_ANNOTATION@] == token,
        service_settled(
            identity,
            owner_uid,
            namespace,
            token,
            desired,
            CreateReply::Exists(Ok(service)),
        ) matches Ok(found) ==> found == service@,
        service_settled(
            identity,
            owner_uid,
            namespace,
            token,
            desired,
            CreateReply::Exists(Err(error)),
        ) is Err,
        service_settled(identity, owner_uid, namespace, token, desired, CreateReply::Failed(error)) is Err,
{
}

/// A service that is there for the execution is settled as it was created: what
/// was asked for answers to its own execution.
pub proof fn law_service_answers_to_its_execution(
    identity: PodExecutionIdentityView,
    labels: Map<Seq<char>, Seq<char>>,
    namespace: Seq<char>,
    owner_reference: OwnerReferenceView,
    token: Seq<char>,
)
    requires
        identity.submission_token.len() > 0,
        token.len() > 0,
        owner_reference.controller == Some(true),
    ensures
        ({
            let service = headless_service(identity, labels, namespace, owner_reference, token);
            &&& controlled_by(service.metadata, owner_reference.uid)
            &&& service.metadata.annotations is Some
            &&& (service.metadata.annotations->0).contains_key(SERVICE_DISPATCH_TOKEN_ANNOTATION@)
            &&& (service.metadata.annotations->0)[SERVICE_DISPATCH_TOKEN_ANNOTATION@] == token
            &&& service.spec->0.ports is Some
            &&& (service.spec->0.ports->0).len() == 1
            &&& (service.spec->0.ports->0)[0].port == 29500
            &&& (service.spec->0.ports->0)[0].target_port == Some(29500i32)
            &&& (service.spec->0.ports->0)[0].protocol == Some("TCP"@)
            &&& service.metadata.finalizers is None
        }),
{
    let service = headless_service(identity, labels, namespace, owner_reference, token);
    let owners = service.metadata.owner_references->0;
    assert(owners[0] == owner_reference);
    crate::execution_identity::lemma_names_distinct();
}

/// A pod is labelled with the name of its job and with its node, as far as a
/// label can hold them; what a label cannot hold at all is left out.
pub proof fn law_labels_tell_job_and_node(
    identity: PodExecutionIdentityView,
    job_name: Seq<char>,
    target_node: Seq<char>,
)
    ensures
        ({
            let labels = launch_labels(identity, job_name, target_node);
            let job = label_of_name(name_of_lowered(lowercase(job_name)));
            let node = label_of_name(name_of_lowered(lowercase(target_node)));
            &&& labels.contains_key("spur.amd.com/job-name"@) <==> job_name.len() > 0 && job.len()
                > 0
            &&& labels.contains_key("spur.amd.com/job-name"@)
                ==> labels["spur.amd.com/job-name"@] == job
            &&& labels.contains_key("spur.amd.com/target-node"@) <==> target_node.len() > 0
                && node.len() > 0
            &&& labels.contains_key("spur.amd.com/target-node"@)
                ==> labels["spur.amd.com/target-node"@] == node
        }),
{
    reveal_strlit("spur.amd.com/job-id");
    reveal_strlit("spur.amd.com/submission-generation");
    reveal_strlit("spur.amd.com/run-attempt");
    reveal_strlit("spur.amd.com/managed-by");
    reveal_strlit("spur.amd.com/job-name");
    reveal_strlit("spur.amd.com/target-node");
    assert("spur.amd.com/job-id"@.len() == 19);
    assert("spur.amd.com/submission-generation"@.len() == 34);
    assert("spur.amd.com/run-attempt"@.len() == 24);
    assert("spur.amd.com/managed-by"@.len() == 23);
    assert("spur.amd.com/job-name"@.len() == 21);
    assert("spur.amd.com/target-node"@.len() == 24);
    assert("spur.amd.com/target-node"@[13] == 't');
    assert("spur.amd.com/run-attempt"@[13] == 'r');
}

} // verus!
