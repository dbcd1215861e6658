//! The parts of cluster objects that decisions are made from.

use vstd::prelude::*;
use crate::plain::Plain;
use crate::strmap::StrMap;

verus! {

/// The object that another object belongs to.
#[derive(Clone, Debug, Default)]
pub struct OwnerReference {
    pub api_version: String,
    pub kind: String,
    pub name: String,
    pub uid: String,
    pub controller: Option<bool>,
    pub block_owner_deletion: Option<bool>,
}

/// What an [`OwnerReference`] holds.
#[verifier::ext_equal]
pub struct OwnerReferenceView {
    pub api_version: Seq<char>,
    pub kind: Seq<char>,
    pub name: Seq<char>,
    pub uid: Seq<char>,
    pub controller: Option<bool>,
    pub block_owner_deletion: Option<bool>,
}

impl View for OwnerReference {
    type V = OwnerReferenceView;

    open spec fn view(&self) -> OwnerReferenceView {
        OwnerReferenceView {
            api_version: self.api_version.deep_view(),
            kind: self.kind.deep_view(),
            name: self.name.deep_view(),
            uid: self.uid.deep_view(),
            controller: self.controller.deep_view(),
            block_owner_deletion: self.block_owner_deletion.deep_view(),
        }
    }
}

impl DeepView for OwnerReference {
    type V = OwnerReferenceView;

    open spec fn deep_view(&self) -> OwnerReferenceView {
        self@
    }
}

impl Plain for OwnerReference {
    fn equals(&self, other: &Self) -> (same: bool) {
        self.api_version.equals(&other.api_version)
            && self.kind.equals(&other.kind)
            && self.name.equals(&other.name)
            && self.uid.equals(&other.uid)
            && self.controller.equals(&other.controller)
            && self.block_owner_deletion.equals(&other.block_owner_deletion)
    }

    fn copy_of(&self) -> (out: Self) {
        OwnerReference {
            api_version: self.api_version.copy_of(),
            kind: self.kind.copy_of(),
            name: self.name.copy_of(),
            uid: self.uid.copy_of(),
            controller: self.controller.copy_of(),
            block_owner_deletion: self.block_owner_deletion.copy_of(),
        }
    }
}

/// Identity and ownership of a cluster object.
#[derive(Clone, Debug, Default)]
pub struct ObjectMeta {
    pub name: Option<String>,
    pub namespace: Option<String>,
    pub uid: Option<String>,
    pub resource_version: Option<String>,
    pub labels: Option<StrMap>,
    pub annotations: Option<StrMap>,
    pub owner_references: Option<Vec<OwnerReference>>,
    pub finalizers: Option<Vec<String>>,
}

/// What an [`ObjectMeta`] holds.
#[verifier::ext_equal]
pub struct ObjectMetaView {
    pub name: Option<Seq<char>>,
    pub namespace: Option<Seq<char>>,
    pub uid: Option<Seq<char>>,
    pub resource_version: Option<Seq<char>>,
    pub labels: Option<Map<Seq<char>, Seq<char>>>,
    pub annotations: Option<Map<Seq<char>, Seq<char>>>,
    pub owner_references: Option<Seq<OwnerReferenceView>>,
    pub finalizers: Option<Seq<Seq<char>>>,
}

impl View for ObjectMeta {
    type V = ObjectMetaView;

    open spec fn view(&self) -> ObjectMetaView {
        ObjectMetaView {
            name: self.name.deep_view(),
            namespace: self.namespace.deep_view(),
            uid: self.uid.deep_view(),
            resource_version: self.resource_version.deep_view(),
            labels: self.labels.deep_view(),
            annotations: self.annotations.deep_view(),
            owner_references: self.owner_references.deep_view(),
            finalizers: self.finalizers.deep_view(),
        }
    }
}

impl DeepView for ObjectMeta {
    type V = ObjectMetaView;

    open spec fn deep_view(&self) -> ObjectMetaView {
        self@
    }
}

impl Plain for ObjectMeta {
    fn equals(&self, other: &Self) -> (same: bool) {
        self.name.equals(&other.name)
            && self.namespace.equals(&other.namespace)
            && self.uid.equals(&other.uid)
            && self.resource_version.equals(&other.resource_version)
            && self.labels.equals(&other.labels)
            && self.annotations.equals(&other.annotations)
            && self.owner_references.equals(&other.owner_references)
            && self.finalizers.equals(&other.finalizers)
    }

    fn copy_of(&self) -> (out: Self) {
        ObjectMeta {
            name: self.name.copy_of(),
            namespace: self.namespace.copy_of(),
            uid: self.uid.copy_of(),
            resource_version: self.resource_version.copy_of(),
            labels: self.labels.copy_of(),
            annotations: self.annotations.copy_of(),
            owner_references: self.owner_references.copy_of(),
            finalizers: self.finalizers.copy_of(),
        }
    }
}

/// A key of a secret that an environment variable takes its value from.
#[derive(Clone, Debug, Default)]
pub struct SecretKeyRef {
    pub name: String,
    pub key: String,
    pub optional: Option<bool>,
}

/// What a [`SecretKeyRef`] holds.
#[verifier::ext_equal]
pub struct SecretKeyRefView {
    pub name: Seq<char>,
    pub key: Seq<char>,
    pub optional: Option<bool>,
}

impl View for SecretKeyRef {
    type V = SecretKeyRefView;

    open spec fn view(&self) -> SecretKeyRefView {
        SecretKeyRefView {
            name: self.name.deep_view(),
            key: self.key.deep_view(),
            optional: self.optional.deep_view(),
        }
    }
}

impl DeepView for SecretKeyRef {
    type V = SecretKeyRefView;

    open spec fn deep_view(&self) -> SecretKeyRefView {
        self@
    }
}

impl Plain for SecretKeyRef {
    fn equals(&self, other: &Self) -> (same: bool) {
        self.name.equals(&other.name)
            && self.key.equals(&other.key)
            && self.optional.equals(&other.optional)
    }

    fn copy_of(&self) -> (out: Self) {
        SecretKeyRef {
            name: self.name.copy_of(),
            key: self.key.copy_of(),
            optional: self.optional.copy_of(),
        }
    }
}

/// One environment variable of a container.
#[derive(Clone, Debug, Default)]
pub struct EnvVar {
    pub name: String,
    pub value: Option<String>,
    pub secret_key_ref: Option<SecretKeyRef>,
    /// Every further field, rendered canonically; empty when none is set.
    pub other: String,
}

/// What an [`EnvVar`] holds.
#[verifier::ext_equal]
pub struct EnvVarView {
    pub name: Seq<char>,
    pub value: Option<Seq<char>>,
    pub secret_key_ref: Option<SecretKeyRefView>,
    pub other: Seq<char>,
}

impl View for EnvVar {
    type V = EnvVarView;

    open spec fn view(&self) -> EnvVarView {
        EnvVarView {
            name: self.name.deep_view(),
            value: self.value.deep_view(),
            secret_key_ref: self.secret_key_ref.deep_view(),
            other: self.other.deep_view(),
        }
    }
}

impl DeepView for EnvVar {
    type V = EnvVarView;

    open spec fn deep_view(&self) -> EnvVarView {
        self@
    }
}

impl Plain for EnvVar {
    fn equals(&self, other: &Self) -> (same: bool) {
        self.name.equals(&other.name)
            && self.value.equals(&other.value)
            && self.secret_key_ref.equals(&other.secret_key_ref)
            && self.other.equals(&other.other)
    }

    fn copy_of(&self) -> (out: Self) {
        EnvVar {
            name: self.name.copy_of(),
            value: self.value.copy_of(),
            secret_key_ref: self.secret_key_ref.copy_of(),
            other: self.other.copy_of(),
        }
    }
}

/// Where a container sees a volume.
#[derive(Clone, Debug, Default)]
pub struct VolumeMount {
    pub name: String,
    pub mount_path: String,
    pub read_only: Option<bool>,
    /// Every further field, rendered canonically; empty when none is set.
    pub other: String,
}

/// What a [`VolumeMount`] holds.
#[verifier::ext_equal]
pub struct VolumeMountView {
    pub name: Seq<char>,
    pub mount_path: Seq<char>,
    pub read_only: Option<bool>,
    pub other: Seq<char>,
}

impl View for VolumeMount {
    type V = VolumeMountView;

    open spec fn view(&self) -> VolumeMountView {
        VolumeMountView {
            name: self.name.deep_view(),
            mount_path: self.mount_path.deep_view(),
            read_only: self.read_only.deep_view(),
            other: self.other.deep_view(),
        }
    }
}

impl DeepView for VolumeMount {
    type V = VolumeMountView;

    open spec fn deep_view(&self) -> VolumeMountView {
        self@
    }
}

impl Plain for VolumeMount {
    fn equals(&self, other: &Self) -> (same: bool) {
        self.name.equals(&other.name)
            && self.mount_path.equals(&other.mount_path)
            && self.read_only.equals(&other.read_only)
            && self.other.equals(&other.other)
    }

    fn copy_of(&self) -> (out: Self) {
        VolumeMount {
            name: self.name.copy_of(),
            mount_path: self.mount_path.copy_of(),
            read_only: self.read_only.copy_of(),
            other: self.other.copy_of(),
        }
    }
}

/// Quantities that a container asks for and may not exceed.
#[derive(Clone, Debug, Default)]
pub struct ResourceRequirements {
    pub requests: Option<StrMap>,
    pub limits: Option<StrMap>,
    /// Every further field, rendered canonically; empty when none is set.
    pub other: String,
}

/// What a [`ResourceRequirements`] holds.
#[verifier::ext_equal]
pub struct ResourceRequirementsView {
    pub requests: Option<Map<Seq<char>, Seq<char>>>,
    pub limits: Option<Map<Seq<char>, Seq<char>>>,
    pub other: Seq<char>,
}

impl View for ResourceRequirements {
    type V = ResourceRequirementsView;

    open spec fn view(&self) -> ResourceRequirementsView {
        ResourceRequirementsView {
            requests: self.requests.deep_view(),
            limits: self.limits.deep_view(),
            other: self.other.deep_view(),
        }
    }
}

impl DeepView for ResourceRequirements {
    type V = ResourceRequirementsView;

    open spec fn deep_view(&self) -> ResourceRequirementsView {
        self@
    }
}

impl Plain for ResourceRequirements {
    fn equals(&self, other: &Self) -> (same: bool) {
        self.requests.equals(&other.requests)
            && self.limits.equals(&other.limits)
            && self.other.equals(&other.other)
    }

    fn copy_of(&self) -> (out: Self) {
        ResourceRequirements {
            requests: self.requests.copy_of(),
            limits: self.limits.copy_of(),
            other: self.other.copy_of(),
        }
    }
}

/// Privileges of a container.
#[derive(Clone, Debug, Default)]
pub struct SecurityContext {
    pub privileged: Option<bool>,
    /// Every further field, rendered canonically; empty when none is set.
    pub other: String,
}

/// What a [`SecurityContext`] holds.
#[verifier::ext_equal]
pub struct SecurityContextView {
    pub privileged: Option<bool>,
    pub other: Seq<char>,
}

impl View for SecurityContext {
    type V = SecurityContextView;

    open spec fn view(&self) -> SecurityContextView {
        SecurityContextView {
            privileged: self.privileged.deep_view(),
            other: self.other.deep_view(),
        }
    }
}

impl DeepView for SecurityContext {
    type V = SecurityContextView;

    open spec fn deep_view(&self) -> SecurityContextView {
        self@
    }
}

impl Plain for SecurityContext {
    fn equals(&self, other: &Self) -> (same: bool) {
        self.privileged.equals(&other.privileged)
            && self.other.equals(&other.other)
    }

    fn copy_of(&self) -> (out: Self) {
        SecurityContext {
            privileged: self.privileged.copy_of(),
            other: self.other.copy_of(),
        }
    }
}

/// One container of a pod.
#[derive(Clone, Debug, Default)]
pub struct Container {
    pub name: String,
    pub image: Option<String>,
    pub image_pull_policy: Option<String>,
    pub command: Option<Vec<String>>,
    pub env: Option<Vec<EnvVar>>,
    pub working_dir: Option<String>,
    pub volume_mounts: Option<Vec<VolumeMount>>,
    pub resources: Option<ResourceRequirements>,
    pub security_context: Option<SecurityContext>,
    pub termination_message_path: Option<String>,
    pub termination_message_policy: Option<String>,
    /// Every further field, rendered canonically; empty when none is set.
    pub other: String,
}

/// What a [`Container`] holds.
#[verifier::ext_equal]
pub struct ContainerView {
    pub name: Seq<char>,
    pub image: Option<Seq<char>>,
    pub image_pull_policy: Option<Seq<char>>,
    pub command: Option<Seq<Seq<char>>>,
    pub env: Option<Seq<EnvVarView>>,
    pub working_dir: Option<Seq<char>>,
    pub volume_mounts: Option<Seq<VolumeMountView>>,
    pub resources: Option<ResourceRequirementsView>,
    pub security_context: Option<SecurityContextView>,
    pub termination_message_path: Option<Seq<char>>,
    pub termination_message_policy: Option<Seq<char>>,
    pub other: Seq<char>,
}

impl View for Container {
    type V = ContainerView;

    open spec fn view(&self) -> ContainerView {
        ContainerView {
            name: self.name.deep_view(),
            image: self.image.deep_view(),
            image_pull_policy: self.image_pull_policy.deep_view(),
            command: self.command.deep_view(),
            env: self.env.deep_view(),
            working_dir: self.working_dir.deep_view(),
            volume_mounts: self.volume_mounts.deep_view(),
            resources: self.resources.deep_view(),
            security_context: self.security_context.deep_view(),
            termination_message_path: self.termination_message_path.deep_view(),
            termination_message_policy: self.termination_message_policy.deep_view(),
            other: self.other.deep_view(),
        }
    }
}

impl DeepView for Container {
    type V = ContainerView;

    open spec fn deep_view(&self) -> ContainerView {
        self@
    }
}

impl Plain for Container {
    fn equals(&self, other: &Self) -> (same: bool) {
        self.name.equals(&other.name)
            && self.image.equals(&other.image)
            && self.image_pull_policy.equals(&other.image_pull_policy)
            && self.command.equals(&other.command)
            && self.env.equals(&other.env)
            && self.working_dir.equals(&other.working_dir)
            && self.volume_mounts.equals(&other.volume_mounts)
            && self.resources.equals(&other.resources)
            && self.security_context.equals(&other.security_context)
            && self.termination_message_path.equals(&other.termination_message_path)
            && self.termination_message_policy.equals(&other.termination_message_policy)
            && self.other.equals(&other.other)
    }

    fn copy_of(&self) -> (out: Self) {
        Container {
            name: self.name.copy_of(),
            image: self.image.copy_of(),
            image_pull_policy: self.image_pull_policy.copy_of(),
            command: self.command.copy_of(),
            env: self.env.copy_of(),
            working_dir: self.working_dir.copy_of(),
            volume_mounts: self.volume_mounts.copy_of(),
            resources: self.resources.copy_of(),
            security_context: self.security_context.copy_of(),
            termination_message_path: self.termination_message_path.copy_of(),
            termination_message_policy: self.termination_message_policy.copy_of(),
            other: self.other.copy_of(),
        }
    }
}

/// A directory of the host.
#[derive(Clone, Debug, Default)]
pub struct HostPathVolume {
    pub path: String,
    pub type_: Option<String>,
}

/// What a [`HostPathVolume`] holds.
#[verifier::ext_equal]
pub struct HostPathVolumeView {
    pub path: Seq<char>,
    pub type_: Option<Seq<char>>,
}

impl View for HostPathVolume {
    type V = HostPathVolumeView;

    open spec fn view(&self) -> HostPathVolumeView {
        HostPathVolumeView {
            path: self.path.deep_view(),
            type_: self.type_.deep_view(),
        }
    }
}

impl DeepView for HostPathVolume {
    type V = HostPathVolumeView;

    open spec fn deep_view(&self) -> HostPathVolumeView {
        self@
    }
}

impl Plain for HostPathVolume {
    fn equals(&self, other: &Self) -> (same: bool) {
        self.path.equals(&other.path)
            && self.type_.equals(&other.type_)
    }

    fn copy_of(&self) -> (out: Self) {
        HostPathVolume {
            path: self.path.copy_of(),
            type_: self.type_.copy_of(),
        }
    }
}

/// A claimed persistent volume.
#[derive(Clone, Debug, Default)]
pub struct ClaimVolume {
    pub claim_name: String,
    pub read_only: Option<bool>,
}

/// What a [`ClaimVolume`] holds.
#[verifier::ext_equal]
pub struct ClaimVolumeView {
    pub claim_name: Seq<char>,
    pub read_only: Option<bool>,
}

impl View for ClaimVolume {
    type V = ClaimVolumeView;

    open spec fn view(&self) -> ClaimVolumeView {
        ClaimVolumeView {
            claim_name: self.claim_name.deep_view(),
            read_only: self.read_only.deep_view(),
        }
    }
}

impl DeepView for ClaimVolume {
    type V = ClaimVolumeView;

    open spec fn deep_view(&self) -> ClaimVolumeView {
        self@
    }
}

impl Plain for ClaimVolume {
    fn equals(&self, other: &Self) -> (same: bool) {
        self.claim_name.equals(&other.claim_name)
            && self.read_only.equals(&other.read_only)
    }

    fn copy_of(&self) -> (out: Self) {
        ClaimVolume {
            claim_name: self.claim_name.copy_of(),
            read_only: self.read_only.copy_of(),
        }
    }
}

/// A scratch directory that lives as long as its pod.
#[derive(Clone, Debug, Default)]
pub struct EmptyDirVolume {
    pub medium: Option<String>,
    pub size_limit: Option<String>,
}

/// What an [`EmptyDirVolume`] holds.
#[verifier::ext_equal]
pub struct EmptyDirVolumeView {
    pub medium: Option<Seq<char>>,
    pub size_limit: Option<Seq<char>>,
}

impl View for EmptyDirVolume {
    type V = EmptyDirVolumeView;

    open spec fn view(&self) -> EmptyDirVolumeView {
        EmptyDirVolumeView {
            medium: self.medium.deep_view(),
            size_limit: self.size_limit.deep_view(),
        }
    }
}

impl DeepView for EmptyDirVolume {
    type V = EmptyDirVolumeView;

    open spec fn deep_view(&self) -> EmptyDirVolumeView {
        self@
    }
}

impl Plain for EmptyDirVolume {
    fn equals(&self, other: &Self) -> (same: bool) {
        self.medium.equals(&other.medium)
            && self.size_limit.equals(&other.size_limit)
    }

    fn copy_of(&self) -> (out: Self) {
        EmptyDirVolume {
            medium: self.medium.copy_of(),
            size_limit: self.size_limit.copy_of(),
        }
    }
}

/// One volume of a pod.
#[derive(Clone, Debug, Default)]
pub struct Volume {
    pub name: String,
    pub host_path: Option<HostPathVolume>,
    pub persistent_volume_claim: Option<ClaimVolume>,
    pub empty_dir: Option<EmptyDirVolume>,
    /// Every further field, rendered canonically; empty when none is set.
    pub other: String,
}

/// What a [`Volume`] holds.
#[verifier::ext_equal]
pub struct VolumeView {
    pub name: Seq<char>,
    pub host_path: Option<HostPathVolumeView>,
    pub persistent_volume_claim: Option<ClaimVolumeView>,
    pub empty_dir: Option<EmptyDirVolumeView>,
    pub other: Seq<char>,
}

impl View for Volume {
    type V = VolumeView;

    open spec fn view(&self) -> VolumeView {
        VolumeView {
            name: self.name.deep_view(),
            host_path: self.host_path.deep_view(),
            persistent_volume_claim: self.persistent_volume_claim.deep_view(),
            empty_dir: self.empty_dir.deep_view(),
            other: self.other.deep_view(),
        }
    }
}

impl DeepView for Volume {
    type V = VolumeView;

    open spec fn deep_view(&self) -> VolumeView {
        self@
    }
}

impl Plain for Volume {
    fn equals(&self, other: &Self) -> (same: bool) {
        self.name.equals(&other.name)
            && self.host_path.equals(&other.host_path)
            && self.persistent_volume_claim.equals(&other.persistent_volume_claim)
            && self.empty_dir.equals(&other.empty_dir)
            && self.other.equals(&other.other)
    }

    fn copy_of(&self) -> (out: Self) {
        Volume {
            name: self.name.copy_of(),
            host_path: self.host_path.copy_of(),
            persistent_volume_claim: self.persistent_volume_claim.copy_of(),
            empty_dir: self.empty_dir.copy_of(),
            other: self.other.copy_of(),
        }
    }
}

/// A taint that a pod tolerates.
#[derive(Clone, Debug, Default)]
pub struct Toleration {
    pub key: Option<String>,
    pub operator: Option<String>,
    pub effect: Option<String>,
    pub value: Option<String>,
    pub toleration_seconds: Option<i64>,
}

/// What a [`Toleration`] holds.
#[verifier::ext_equal]
pub struct TolerationView {
    pub key: Option<Seq<char>>,
    pub operator: Option<Seq<char>>,
    pub effect: Option<Seq<char>>,
    pub value: Option<Seq<char>>,
    pub toleration_seconds: Option<i64>,
}

impl View for Toleration {
    type V = TolerationView;

    open spec fn view(&self) -> TolerationView {
        TolerationView {
            key: self.key.deep_view(),
            operator: self.operator.deep_view(),
            effect: self.effect.deep_view(),
            value: self.value.deep_view(),
            toleration_seconds: self.toleration_seconds.deep_view(),
        }
    }
}

impl DeepView for Toleration {
    type V = TolerationView;

    open spec fn deep_view(&self) -> TolerationView {
        self@
    }
}

impl Plain for Toleration {
    fn equals(&self, other: &Self) -> (same: bool) {
        self.key.equals(&other.key)
            && self.operator.equals(&other.operator)
            && self.effect.equals(&other.effect)
            && self.value.equals(&other.value)
            && self.toleration_seconds.equals(&other.toleration_seconds)
    }

    fn copy_of(&self) -> (out: Self) {
        Toleration {
            key: self.key.copy_of(),
            operator: self.operator.copy_of(),
            effect: self.effect.copy_of(),
            value: self.value.copy_of(),
            toleration_seconds: self.toleration_seconds.copy_of(),
        }
    }
}

/// Privileges shared by the containers of a pod.
#[derive(Clone, Debug, Default)]
pub struct PodSecurityContext {
    pub run_as_user: Option<i64>,
    /// Every further field, rendered canonically; empty when none is set.
    pub other: String,
}

/// What a [`PodSecurityContext`] holds.
#[verifier::ext_equal]
pub struct PodSecurityContextView {
    pub run_as_user: Option<i64>,
    pub other: Seq<char>,
}

impl View for PodSecurityContext {
    type V = PodSecurityContextView;

    open spec fn view(&self) -> PodSecurityContextView {
        PodSecurityContextView {
            run_as_user: self.run_as_user.deep_view(),
            other: self.other.deep_view(),
        }
    }
}

impl DeepView for PodSecurityContext {
    type V = PodSecurityContextView;

    open spec fn deep_view(&self) -> PodSecurityContextView {
        self@
    }
}

impl Plain for PodSecurityContext {
    fn equals(&self, other: &Self) -> (same: bool) {
        self.run_as_user.equals(&other.run_as_user)
            && self.other.equals(&other.other)
    }

    fn copy_of(&self) -> (out: Self) {
        PodSecurityContext {
            run_as_user: self.run_as_user.copy_of(),
            other: self.other.copy_of(),
        }
    }
}

/// What a pod runs and where.
#[derive(Clone, Debug, Default)]
pub struct PodSpec {
    pub containers: Vec<Container>,
    pub automount_service_account_token: Option<bool>,
    pub restart_policy: Option<String>,
    pub scheduler_name: Option<String>,
    pub service_account: Option<String>,
    pub service_account_name: Option<String>,
    pub preemption_policy: Option<String>,
    pub termination_grace_period_seconds: Option<i64>,
    pub enable_service_links: Option<bool>,
    pub node_name: Option<String>,
    pub hostname: Option<String>,
    pub subdomain: Option<String>,
    pub volumes: Option<Vec<Volume>>,
    pub host_network: Option<bool>,
    pub dns_policy: Option<String>,
    pub host_ipc: Option<bool>,
    pub host_pid: Option<bool>,
    pub priority: Option<i32>,
    pub security_context: Option<PodSecurityContext>,
    pub tolerations: Option<Vec<Toleration>>,
    /// Every further field, rendered canonically; empty when none is set.
    pub other: String,
}

/// What a [`PodSpec`] holds.
#[verifier::ext_equal]
pub struct PodSpecView {
    pub containers: Seq<ContainerView>,
    pub automount_service_account_token: Option<bool>,
    pub restart_policy: Option<Seq<char>>,
    pub scheduler_name: Option<Seq<char>>,
    pub service_account: Option<Seq<char>>,
    pub service_account_name: Option<Seq<char>>,
    pub preemption_policy: Option<Seq<char>>,
    pub termination_grace_period_seconds: Option<i64>,
    pub enable_service_links: Option<bool>,
    pub node_name: Option<Seq<char>>,
    pub hostname: Option<Seq<char>>,
    pub subdomain: Option<Seq<char>>,
    pub volumes: Option<Seq<VolumeView>>,
    pub host_network: Option<bool>,
    pub dns_policy: Option<Seq<char>>,
    pub host_ipc: Option<bool>,
    pub host_pid: Option<bool>,
    pub priority: Option<i32>,
    pub security_context: Option<PodSecurityContextView>,
    pub tolerations: Option<Seq<TolerationView>>,
    pub other: Seq<char>,
}

impl View for PodSpec {
    type V = PodSpecView;

    open spec fn view(&self) -> PodSpecView {
        PodSpecView {
            containers: self.containers.deep_view(),
            automount_service_account_token: self.automount_service_account_token.deep_view(),
            restart_policy: self.restart_policy.deep_view(),
            scheduler_name: self.scheduler_name.deep_view(),
            service_account: self.service_account.deep_view(),
            service_account_name: self.service_account_name.deep_view(),
            preemption_policy: self.preemption_policy.deep_view(),
            termination_grace_period_seconds: self.termination_grace_period_seconds.deep_view(),
            enable_service_links: self.enable_service_links.deep_view(),
            node_name: self.node_name.deep_view(),
            hostname: self.hostname.deep_view(),
            subdomain: self.subdomain.deep_view(),
            volumes: self.volumes.deep_view(),
            host_network: self.host_network.deep_view(),
            dns_policy: self.dns_policy.deep_view(),
            host_ipc: self.host_ipc.deep_view(),
            host_pid: self.host_pid.deep_view(),
            priority: self.priority.deep_view(),
            security_context: self.security_context.deep_view(),
            tolerations: self.tolerations.deep_view(),
            other: self.other.deep_view(),
        }
    }
}

impl DeepView for PodSpec {
    type V = PodSpecView;

    open spec fn deep_view(&self) -> PodSpecView {
        self@
    }
}

impl Plain for PodSpec {
    fn equals(&self, other: &Self) -> (same: bool) {
        self.containers.equals(&other.containers)
            && self.automount_service_account_token.equals(&other.automount_service_account_token)
            && self.restart_policy.equals(&other.restart_policy)
            && self.scheduler_name.equals(&other.scheduler_name)
            && self.service_account.equals(&other.service_account)
            && self.service_account_name.equals(&other.service_account_name)
            && self.preemption_policy.equals(&other.preemption_policy)
            && self.termination_grace_period_seconds.equals(&other.termination_grace_period_seconds)
            && self.enable_service_links.equals(&other.enable_service_links)
            && self.node_name.equals(&other.node_name)
            && self.hostname.equals(&other.hostname)
            && self.subdomain.equals(&other.subdomain)
            && self.volumes.equals(&other.volumes)
            && self.host_network.equals(&other.host_network)
            && self.dns_policy.equals(&other.dns_policy)
            && self.host_ipc.equals(&other.host_ipc)
            && self.host_pid.equals(&other.host_pid)
            && self.priority.equals(&other.priority)
            && self.security_context.equals(&other.security_context)
            && self.tolerations.equals(&other.tolerations)
            && self.other.equals(&other.other)
    }

    fn copy_of(&self) -> (out: Self) {
        PodSpec {
            containers: self.containers.copy_of(),
            automount_service_account_token: self.automount_service_account_token.copy_of(),
            restart_policy: self.restart_policy.copy_of(),
            scheduler_name: self.scheduler_name.copy_of(),
            service_account: self.service_account.copy_of(),
            service_account_name: self.service_account_name.copy_of(),
            preemption_policy: self.preemption_policy.copy_of(),
            termination_grace_period_seconds: self.termination_grace_period_seconds.copy_of(),
            enable_service_links: self.enable_service_links.copy_of(),
            node_name: self.node_name.copy_of(),
            hostname: self.hostname.copy_of(),
            subdomain: self.subdomain.copy_of(),
            volumes: self.volumes.copy_of(),
            host_network: self.host_network.copy_of(),
            dns_policy: self.dns_policy.copy_of(),
            host_ipc: self.host_ipc.copy_of(),
            host_pid: self.host_pid.copy_of(),
            priority: self.priority.copy_of(),
            security_context: self.security_context.copy_of(),
            tolerations: self.tolerations.copy_of(),
            other: self.other.copy_of(),
        }
    }
}

/// How a container ended.
#[derive(Clone, Debug, Default)]
pub struct ContainerTermination {
    pub exit_code: i32,
    pub reason: Option<String>,
    pub message: Option<String>,
}

/// What a [`ContainerTermination`] holds.
#[verifier::ext_equal]
pub struct ContainerTerminationView {
    pub exit_code: i32,
    pub reason: Option<Seq<char>>,
    pub message: Option<Seq<char>>,
}

impl View for ContainerTermination {
    type V = ContainerTerminationView;

    open spec fn view(&self) -> ContainerTerminationView {
        ContainerTerminationView {
            exit_code: self.exit_code.deep_view(),
            reason: self.reason.deep_view(),
            message: self.message.deep_view(),
        }
    }
}

impl DeepView for ContainerTermination {
    type V = ContainerTerminationView;

    open spec fn deep_view(&self) -> ContainerTerminationView {
        self@
    }
}

impl Plain for ContainerTermination {
    fn equals(&self, other: &Self) -> (same: bool) {
        self.exit_code.equals(&other.exit_code)
            && self.reason.equals(&other.reason)
            && self.message.equals(&other.message)
    }

    fn copy_of(&self) -> (out: Self) {
        ContainerTermination {
            exit_code: self.exit_code.copy_of(),
            reason: self.reason.copy_of(),
            message: self.message.copy_of(),
        }
    }
}

/// Why a container is not running yet.
#[derive(Clone, Debug, Default)]
pub struct ContainerWait {
    pub reason: Option<String>,
    pub message: Option<String>,
}

/// What a [`ContainerWait`] holds.
#[verifier::ext_equal]
pub struct ContainerWaitView {
    pub reason: Option<Seq<char>>,
    pub message: Option<Seq<char>>,
}

impl View for ContainerWait {
    type V = ContainerWaitView;

    open spec fn view(&self) -> ContainerWaitView {
        ContainerWaitView {
            reason: self.reason.deep_view(),
            message: self.message.deep_view(),
        }
    }
}

impl DeepView for ContainerWait {
    type V = ContainerWaitView;

    open spec fn deep_view(&self) -> ContainerWaitView {
        self@
    }
}

impl Plain for ContainerWait {
    fn equals(&self, other: &Self) -> (same: bool) {
        self.reason.equals(&other.reason)
            && self.message.equals(&other.message)
    }

    fn copy_of(&self) -> (out: Self) {
        ContainerWait {
            reason: self.reason.copy_of(),
            message: self.message.copy_of(),
        }
    }
}

/// What a container is doing.
#[derive(Clone, Debug, Default)]
pub struct ContainerState {
    pub terminated: Option<ContainerTermination>,
    pub waiting: Option<ContainerWait>,
}

/// What a [`ContainerState`] holds.
#[verifier::ext_equal]
pub struct ContainerStateView {
    pub terminated: Option<ContainerTerminationView>,
    pub waiting: Option<ContainerWaitView>,
}

impl View for ContainerState {
    type V = ContainerStateView;

    open spec fn view(&self) -> ContainerStateView {
        ContainerStateView {
            terminated: self.terminated.deep_view(),
            waiting: self.waiting.deep_view(),
        }
    }
}

impl DeepView for ContainerState {
    type V = ContainerStateView;

    open spec fn deep_view(&self) -> ContainerStateView {
        self@
    }
}

impl Plain for ContainerState {
    fn equals(&self, other: &Self) -> (same: bool) {
        self.terminated.equals(&other.terminated)
            && self.waiting.equals(&other.waiting)
    }

    fn copy_of(&self) -> (out: Self) {
        ContainerState {
            terminated: self.terminated.copy_of(),
            waiting: self.waiting.copy_of(),
        }
    }
}

/// What is known of one container.
#[derive(Clone, Debug, Default)]
pub struct ContainerStatus {
    pub name: String,
    pub state: Option<ContainerState>,
}

/// What a [`ContainerStatus`] holds.
#[verifier::ext_equal]
pub struct ContainerStatusView {
    pub name: Seq<char>,
    pub state: Option<ContainerStateView>,
}

impl View for ContainerStatus {
    type V = ContainerStatusView;

    open spec fn view(&self) -> ContainerStatusView {
        ContainerStatusView {
            name: self.name.deep_view(),
            state: self.state.deep_view(),
        }
    }
}

impl DeepView for ContainerStatus {
    type V = ContainerStatusView;

    open spec fn deep_view(&self) -> ContainerStatusView {
        self@
    }
}

impl Plain for ContainerStatus {
    fn equals(&self, other: &Self) -> (same: bool) {
        self.name.equals(&other.name)
            && self.state.equals(&other.state)
    }

    fn copy_of(&self) -> (out: Self) {
        ContainerStatus {
            name: self.name.copy_of(),
            state: self.state.copy_of(),
        }
    }
}

/// What is known of a pod.
#[derive(Clone, Debug, Default)]
pub struct PodStatus {
    pub phase: Option<String>,
    pub reason: Option<String>,
    pub message: Option<String>,
    pub container_statuses: Option<Vec<ContainerStatus>>,
}

/// What a [`PodStatus`] holds.
#[verifier::ext_equal]
pub struct PodStatusView {
    pub phase: Option<Seq<char>>,
    pub reason: Option<Seq<char>>,
    pub message: Option<Seq<char>>,
    pub container_statuses: Option<Seq<ContainerStatusView>>,
}

impl View for PodStatus {
    type V = PodStatusView;

    open spec fn view(&self) -> PodStatusView {
        PodStatusView {
            phase: self.phase.deep_view(),
            reason: self.reason.deep_view(),
            message: self.message.deep_view(),
            container_statuses: self.container_statuses.deep_view(),
        }
    }
}

impl DeepView for PodStatus {
    type V = PodStatusView;

    open spec fn deep_view(&self) -> PodStatusView {
        self@
    }
}

impl Plain for PodStatus {
    fn equals(&self, other: &Self) -> (same: bool) {
        self.phase.equals(&other.phase)
            && self.reason.equals(&other.reason)
            && self.message.equals(&other.message)
            && self.container_statuses.equals(&other.container_statuses)
    }

    fn copy_of(&self) -> (out: Self) {
        PodStatus {
            phase: self.phase.copy_of(),
            reason: self.reason.copy_of(),
            message: self.message.copy_of(),
            container_statuses: self.container_statuses.copy_of(),
        }
    }
}

/// A pod.
#[derive(Clone, Debug, Default)]
pub struct Pod {
    pub metadata: ObjectMeta,
    pub spec: Option<PodSpec>,
    pub status: Option<PodStatus>,
}

/// What a [`Pod`] holds.
#[verifier::ext_equal]
pub struct PodView {
    pub metadata: ObjectMetaView,
    pub spec: Option<PodSpecView>,
    pub status: Option<PodStatusView>,
}

impl View for Pod {
    type V = PodView;

    open spec fn view(&self) -> PodView {
        PodView {
            metadata: self.metadata.deep_view(),
            spec: self.spec.deep_view(),
            status: self.status.deep_view(),
        }
    }
}

impl DeepView for Pod {
    type V = PodView;

    open spec fn deep_view(&self) -> PodView {
        self@
    }
}

impl Plain for Pod {
    fn equals(&self, other: &Self) -> (same: bool) {
        self.metadata.equals(&other.metadata)
            && self.spec.equals(&other.spec)
            && self.status.equals(&other.status)
    }

    fn copy_of(&self) -> (out: Self) {
        Pod {
            metadata: self.metadata.copy_of(),
            spec: self.spec.copy_of(),
            status: self.status.copy_of(),
        }
    }
}

/// One port of a service.
#[derive(Clone, Debug, Default)]
pub struct ServicePort {
    pub name: Option<String>,
    pub port: i32,
    pub target_port: Option<i32>,
    pub protocol: Option<String>,
    /// Every further field, rendered canonically; empty when none is set.
    pub other: String,
}

/// What a [`ServicePort`] holds.
#[verifier::ext_equal]
pub struct ServicePortView {
    pub name: Option<Seq<char>>,
    pub port: i32,
    pub target_port: Option<i32>,
    pub protocol: Option<Seq<char>>,
    pub other: Seq<char>,
}

impl View for ServicePort {
    type V = ServicePortView;

    open spec fn view(&self) -> ServicePortView {
        ServicePortView {
            name: self.name.deep_view(),
            port: self.port.deep_view(),
            target_port: self.target_port.deep_view(),
            protocol: self.protocol.deep_view(),
            other: self.other.deep_view(),
        }
    }
}

impl DeepView for ServicePort {
    type V = ServicePortView;

    open spec fn deep_view(&self) -> ServicePortView {
        self@
    }
}

impl Plain for ServicePort {
    fn equals(&self, other: &Self) -> (same: bool) {
        self.name.equals(&other.name)
            && self.port.equals(&other.port)
            && self.target_port.equals(&other.target_port)
            && self.protocol.equals(&other.protocol)
            && self.other.equals(&other.other)
    }

    fn copy_of(&self) -> (out: Self) {
        ServicePort {
            name: self.name.copy_of(),
            port: self.port.copy_of(),
            target_port: self.target_port.copy_of(),
            protocol: self.protocol.copy_of(),
            other: self.other.copy_of(),
        }
    }
}

/// How a service selects and exposes its pods.
#[derive(Clone, Debug, Default)]
pub struct ServiceSpec {
    pub cluster_ip: Option<String>,
    pub type_: Option<String>,
    pub session_affinity: Option<String>,
    pub internal_traffic_policy: Option<String>,
    pub publish_not_ready_addresses: Option<bool>,
    pub selector: Option<StrMap>,
    pub ports: Option<Vec<ServicePort>>,
    pub cluster_ips: Option<Vec<String>>,
    pub ip_families: Option<Vec<String>>,
    pub ip_family_policy: Option<String>,
    pub external_ips: Option<Vec<String>>,
    /// Every further field, rendered canonically; empty when none is set.
    pub other: String,
}

/// What a [`ServiceSpec`] holds.
#[verifier::ext_equal]
pub struct ServiceSpecView {
    pub cluster_ip: Option<Seq<char>>,
    pub type_: Option<Seq<char>>,
    pub session_affinity: Option<Seq<char>>,
    pub internal_traffic_policy: Option<Seq<char>>,
    pub publish_not_ready_addresses: Option<bool>,
    pub selector: Option<Map<Seq<char>, Seq<char>>>,
    pub ports: Option<Seq<ServicePortView>>,
    pub cluster_ips: Option<Seq<Seq<char>>>,
    pub ip_families: Option<Seq<Seq<char>>>,
    pub ip_family_policy: Option<Seq<char>>,
    pub external_ips: Option<Seq<Seq<char>>>,
    pub other: Seq<char>,
}

impl View for ServiceSpec {
    type V = ServiceSpecView;

    open spec fn view(&self) -> ServiceSpecView {
        ServiceSpecView {
            cluster_ip: self.cluster_ip.deep_view(),
            type_: self.type_.deep_view(),
            session_affinity: self.session_affinity.deep_view(),
            internal_traffic_policy: self.internal_traffic_policy.deep_view(),
            publish_not_ready_addresses: self.publish_not_ready_addresses.deep_view(),
            selector: self.selector.deep_view(),
            ports: self.ports.deep_view(),
            cluster_ips: self.cluster_ips.deep_view(),
            ip_families: self.ip_families.deep_view(),
            ip_family_policy: self.ip_family_policy.deep_view(),
            external_ips: self.external_ips.deep_view(),
            other: self.other.deep_view(),
        }
    }
}

impl DeepView for ServiceSpec {
    type V = ServiceSpecView;

    open spec fn deep_view(&self) -> ServiceSpecView {
        self@
    }
}

impl Plain for ServiceSpec {
    fn equals(&self, other: &Self) -> (same: bool) {
        self.cluster_ip.equals(&other.cluster_ip)
            && self.type_.equals(&other.type_)
            && self.session_affinity.equals(&other.session_affinity)
            && self.internal_traffic_policy.equals(&other.internal_traffic_policy)
            && self.publish_not_ready_addresses.equals(&other.publish_not_ready_addresses)
            && self.selector.equals(&other.selector)
            && self.ports.equals(&other.ports)
            && self.cluster_ips.equals(&other.cluster_ips)
            && self.ip_families.equals(&other.ip_families)
            && self.ip_family_policy.equals(&other.ip_family_policy)
            && self.external_ips.equals(&other.external_ips)
            && self.other.equals(&other.other)
    }

    fn copy_of(&self) -> (out: Self) {
        ServiceSpec {
            cluster_ip: self.cluster_ip.copy_of(),
            type_: self.type_.copy_of(),
            session_affinity: self.session_affinity.copy_of(),
            internal_traffic_policy: self.internal_traffic_policy.copy_of(),
            publish_not_ready_addresses: self.publish_not_ready_addresses.copy_of(),
            selector: self.selector.copy_of(),
            ports: self.ports.copy_of(),
            cluster_ips: self.cluster_ips.copy_of(),
            ip_families: self.ip_families.copy_of(),
            ip_family_policy: self.ip_family_policy.copy_of(),
            external_ips: self.external_ips.copy_of(),
            other: self.other.copy_of(),
        }
    }
}

/// A service.
#[derive(Clone, Debug, Default)]
pub struct Service {
    pub metadata: ObjectMeta,
    pub spec: Option<ServiceSpec>,
}

/// What a [`Service`] holds.
#[verifier::ext_equal]
pub struct ServiceView {
    pub metadata: ObjectMetaView,
    pub spec: Option<ServiceSpecView>,
}

impl View for Service {
    type V = ServiceView;

    open spec fn view(&self) -> ServiceView {
        ServiceView {
            metadata: self.metadata.deep_view(),
            spec: self.spec.deep_view(),
        }
    }
}

impl DeepView for Service {
    type V = ServiceView;

    open spec fn deep_view(&self) -> ServiceView {
        self@
    }
}

impl Plain for Service {
    fn equals(&self, other: &Self) -> (same: bool) {
        self.metadata.equals(&other.metadata)
            && self.spec.equals(&other.spec)
    }

    fn copy_of(&self) -> (out: Self) {
        Service {
            metadata: self.metadata.copy_of(),
            spec: self.spec.copy_of(),
        }
    }
}

} // verus!
