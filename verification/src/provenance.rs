//! Recording in a job which objects were created for it.
//!
//! A dispatch token is recorded before an object is created, and the object's
//! UID after. Each record is a conditional update of the job's status: it names
//! the version of the job that the decision was made from, and is decided anew
//! where another update came first.

use vstd::prelude::*;
use crate::control::{
    binds_control_pod, controlled_by, describes_execution, has_controller, law_only_controllers_own,
    opt_reads, resource_has_controller_owner, status_matches_execution,
};
use crate::crd::{SpurJob, SpurJobStatus, SpurJobStatusView, SpurJobView};
use crate::execution_identity::{
    carried_identity, get_opt, holds, is_blank, lookup, lookup_opt, nonempty, PodExecutionIdentity,
    PodExecutionIdentityView, PROVENANCE_RECORDED_ANNOTATION, SERVICE_DISPATCH_TOKEN_ANNOTATION,
};
use crate::k8s::{ObjectMetaView, Pod, PodView, Service, ServiceView};
use crate::plain::Plain;
use crate::status::{outcome_view, refusal, Code, Status, StatusView};
use crate::strmap::StrMap;
use crate::text::join2;
use crate::uuids::{fresh_token, is_random_uuid_text};

verus! {

/// How often a conditional update is tried.
pub const UPDATE_ATTEMPTS: u32 = 8;

/// Where a job is found, and which job is meant.
#[derive(Clone, Debug, Default)]
pub struct OwnerKey {
    pub namespace: String,
    pub name: String,
    pub uid: String,
}

/// What an [`OwnerKey`] holds.
#[verifier::ext_equal]
pub struct OwnerKeyView {
    pub namespace: Seq<char>,
    pub name: Seq<char>,
    pub uid: Seq<char>,
}

impl View for OwnerKey {
    type V = OwnerKeyView;

    open spec fn view(&self) -> OwnerKeyView {
        OwnerKeyView {
            namespace: self.namespace.deep_view(),
            name: self.name.deep_view(),
            uid: self.uid.deep_view(),
        }
    }
}

impl DeepView for OwnerKey {
    type V = OwnerKeyView;

    open spec fn deep_view(&self) -> OwnerKeyView {
        self@
    }
}

impl Plain for OwnerKey {
    fn equals(&self, other: &Self) -> (same: bool) {
        self.namespace.equals(&other.namespace)
            && self.name.equals(&other.name)
            && self.uid.equals(&other.uid)
    }

    fn copy_of(&self) -> (out: Self) {
        OwnerKey {
            namespace: self.namespace.copy_of(),
            name: self.name.copy_of(),
            uid: self.uid.copy_of(),
        }
    }
}

/// Sets one entry of one map of a job's status, if the job still has this version.
#[derive(Clone, Debug, Default)]
pub struct MapPatch {
    pub resource_version: String,
    pub field: String,
    pub key: String,
    pub value: String,
}

/// What a [`MapPatch`] holds.
#[verifier::ext_equal]
pub struct MapPatchView {
    pub resource_version: Seq<char>,
    pub field: Seq<char>,
    pub key: Seq<char>,
    pub value: Seq<char>,
}

impl View for MapPatch {
    type V = MapPatchView;

    open spec fn view(&self) -> MapPatchView {
        MapPatchView {
            resource_version: self.resource_version.deep_view(),
            field: self.field.deep_view(),
            key: self.key.deep_view(),
            value: self.value.deep_view(),
        }
    }
}

impl DeepView for MapPatch {
    type V = MapPatchView;

    open spec fn deep_view(&self) -> MapPatchView {
        self@
    }
}

impl Plain for MapPatch {
    fn equals(&self, other: &Self) -> (same: bool) {
        self.resource_version.equals(&other.resource_version)
            && self.field.equals(&other.field)
            && self.key.equals(&other.key)
            && self.value.equals(&other.value)
    }

    fn copy_of(&self) -> (out: Self) {
        MapPatch {
            resource_version: self.resource_version.copy_of(),
            field: self.field.copy_of(),
            key: self.key.copy_of(),
            value: self.value.copy_of(),
        }
    }
}

/// The key of a job that owns objects.
pub open spec fn key_of_owner(owner: SpurJobView) -> Result<OwnerKeyView, StatusView> {
    match (owner.metadata.namespace, owner.metadata.name, owner.metadata.uid) {
        (None, _, _) => Err(refusal(Code::FailedPrecondition, "owning SpurJob has no namespace"@)),
        (_, None, _) => Err(refusal(Code::FailedPrecondition, "owning SpurJob has no name"@)),
        (_, _, None) => Err(refusal(Code::FailedPrecondition, "owning SpurJob has no UID"@)),
        (Some(namespace), Some(name), Some(uid)) => Ok(OwnerKeyView { namespace, name, uid }),
    }
}

/// The key of a job that owns objects.
pub fn owner_key(owner: &SpurJob) -> (out: Result<OwnerKey, Status>)
    ensures
        outcome_view(out) == key_of_owner(owner@),
{
    match (&owner.metadata.namespace, &owner.metadata.name, &owner.metadata.uid) {
        (None, _, _) => Err(Status::new(Code::FailedPrecondition, "owning SpurJob has no namespace")),
        (_, None, _) => Err(Status::new(Code::FailedPrecondition, "owning SpurJob has no name")),
        (_, _, None) => Err(Status::new(Code::FailedPrecondition, "owning SpurJob has no UID")),
        (Some(namespace), Some(name), Some(uid)) => Ok(
            OwnerKey { namespace: namespace.clone(), name: name.clone(), uid: uid.clone() },
        ),
    }
}

/// What to do about a record.
#[derive(Debug)]
pub enum RecordStep {
    /// It is there, with this value.
    Recorded(String),
    /// Make it with this update.
    Persist(MapPatch),
}

/// What a [`RecordStep`] holds.
pub enum RecordStepView {
    Recorded(Seq<char>),
    Persist(MapPatchView),
}

impl View for RecordStep {
    type V = RecordStepView;

    open spec fn view(&self) -> RecordStepView {
        match self {
            RecordStep::Recorded(value) => RecordStepView::Recorded(value@),
            RecordStep::Persist(patch) => RecordStepView::Persist(patch@),
        }
    }
}

/// Whether the status is that of the submission that an identity was dispatched
/// for.
pub open spec fn same_submission(
    status: SpurJobStatusView,
    identity: PodExecutionIdentityView,
) -> bool {
    &&& status.spur_job_id == Some(identity.key.job_id)
    &&& status.submission_generation == Some(identity.key.submission_generation)
    &&& status.submission_token == Some(identity.submission_token)
}

fn is_same_submission(status: &SpurJobStatus, identity: &PodExecutionIdentity) -> (yes: bool)
    ensures
        yes == same_submission(status@, identity@),
{
    status.spur_job_id.equals(&Some(identity.key.job_id)) && opt_reads(
        &status.submission_generation,
        &identity.key.submission_generation,
    ) && opt_reads(&status.submission_token, &identity.submission_token)
}

/// The update that records `value` under `key`.
pub open spec fn recording(
    fresh: SpurJobView,
    field: Seq<char>,
    key: Seq<char>,
    value: Seq<char>,
) -> Result<RecordStepView, StatusView> {
    match fresh.metadata.resource_version {
        None => Err(refusal(Code::FailedPrecondition, "owning SpurJob has no resourceVersion"@)),
        Some(resource_version) => Ok(
            RecordStepView::Persist(MapPatchView { resource_version, field, key, value }),
        ),
    }
}

fn record(fresh: &SpurJob, field: &str, key: &str, value: &str) -> (out: Result<RecordStep, Status>)
    ensures
        outcome_view(out) == recording(fresh@, field@, key@, value@),
{
    match &fresh.metadata.resource_version {
        None => Err(
            Status::new(Code::FailedPrecondition, "owning SpurJob has no resourceVersion"),
        ),
        Some(resource_version) => Ok(
            RecordStep::Persist(
                MapPatch {
                    resource_version: resource_version.clone(),
                    field: field.to_owned(),
                    key: key.to_owned(),
                    value: value.to_owned(),
                },
            ),
        ),
    }
}

/// The token that a pod is dispatched with: the one that its job recorded, else
/// `token`, to be recorded.
pub open spec fn pod_token_recorded(
    owner_uid: Seq<char>,
    identity: PodExecutionIdentityView,
    pod_name: Seq<char>,
    fresh: SpurJobView,
    token: Seq<char>,
) -> Result<RecordStepView, StatusView> {
    if fresh.metadata.uid != Some(owner_uid) {
        Err(
            refusal(Code::FailedPrecondition, "owning SpurJob was replaced while dispatching"@),
        )
    } else {
        match fresh.status {
            None => Err(
                refusal(Code::FailedPrecondition, "owning SpurJob has no durable status"@),
            ),
            Some(status) => if !same_submission(status, identity) {
                Err(
                    refusal(
                        Code::FailedPrecondition,
                        "owning SpurJob identity changed while dispatching"@,
                    ),
                )
            } else {
                match nonempty(lookup(status.pod_dispatch_tokens, pod_name)) {
                    Some(found) => Ok(RecordStepView::Recorded(found)),
                    None => recording(fresh, "podDispatchTokens"@, pod_name, token),
                }
            },
        }
    }
}

/// The token that a pod is dispatched with, given one to use where its job has
/// recorded none.
pub fn pod_token_step(
    owner_uid: &str,
    identity: &PodExecutionIdentity,
    pod_name: &str,
    fresh: &SpurJob,
    token: &str,
) -> (out: Result<RecordStep, Status>)
    ensures
        outcome_view(out) == pod_token_recorded(
            owner_uid@,
            identity@,
            pod_name@,
            fresh@,
            token@,
        ),
{
    if !opt_reads(&fresh.metadata.uid, &owner_uid.to_owned()) {
        return Err(
            Status::new(Code::FailedPrecondition, "owning SpurJob was replaced while dispatching"),
        );
    }
    let status = match &fresh.status {
        None => return Err(
            Status::new(Code::FailedPrecondition, "owning SpurJob has no durable status"),
        ),
        Some(status) => status,
    };
    if !is_same_submission(status, identity) {
        return Err(
            Status::new(
                Code::FailedPrecondition,
                "owning SpurJob identity changed while dispatching",
            ),
        );
    }
    if let Some(found) = status.pod_dispatch_tokens.get(pod_name) {
        if !is_blank(found) {
            return Ok(RecordStep::Recorded(found.clone()));
        }
    }
    record(fresh, "podDispatchTokens", pod_name, token)
}

/// The token that a pod is dispatched with, a fresh one where its job has
/// recorded none.
pub fn ensure_pod_dispatch_token(
    owner_uid: &str,
    identity: &PodExecutionIdentity,
    pod_name: &str,
    fresh: &SpurJob,
) -> (out: Result<RecordStep, Status>)
    ensures
        exists|token: Seq<char>| #[trigger]
            is_random_uuid_text(token) && outcome_view(out) == pod_token_recorded(
                owner_uid@,
                identity@,
                pod_name@,
                fresh@,
                token,
            ),
{
    let token = fresh_token();
    pod_token_step(owner_uid, identity, pod_name, fresh, token.as_str())
}

/// The token that a service is created with: the one that its job recorded, else
/// `token`, to be recorded.
pub open spec fn service_token_recorded(
    owner_uid: Seq<char>,
    identity: PodExecutionIdentityView,
    service_name: Seq<char>,
    fresh: SpurJobView,
    token: Seq<char>,
) -> Result<RecordStepView, StatusView> {
    if fresh.metadata.uid != Some(owner_uid) {
        Err(
            refusal(
                Code::FailedPrecondition,
                "owning SpurJob was replaced while creating Service"@,
            ),
        )
    } else {
        match fresh.status {
            None => Err(
                refusal(Code::FailedPrecondition, "owning SpurJob has no durable status"@),
            ),
            Some(status) => if !describes_execution(status, identity) || status.submission_token
                != Some(identity.submission_token) {
                Err(
                    refusal(
                        Code::FailedPrecondition,
                        "owning SpurJob identity changed while creating Service"@,
                    ),
                )
            } else {
                match nonempty(lookup(status.service_dispatch_tokens, service_name)) {
                    Some(found) => Ok(RecordStepView::Recorded(found)),
                    None => recording(fresh, "serviceDispatchTokens"@, service_name, token),
                }
            },
        }
    }
}

/// The token that a service is created with, given one to use where its job has
/// recorded none.
pub fn service_token_step(
    owner_uid: &str,
    identity: &PodExecutionIdentity,
    service_name: &str,
    fresh: &SpurJob,
    token: &str,
) -> (out: Result<RecordStep, Status>)
    ensures
        outcome_view(out) == service_token_recorded(
            owner_uid@,
            identity@,
            service_name@,
            fresh@,
            token@,
        ),
{
    if !opt_reads(&fresh.metadata.uid, &owner_uid.to_owned()) {
        return Err(
            Status::new(
                Code::FailedPrecondition,
                "owning SpurJob was replaced while creating Service",
            ),
        );
    }
    let status = match &fresh.status {
        None => return Err(
            Status::new(Code::FailedPrecondition, "owning SpurJob has no durable status"),
        ),
        Some(status) => status,
    };
    if !status_matches_execution(status, identity) || !opt_reads(
        &status.submission_token,
        &identity.submission_token,
    ) {
        return Err(
            Status::new(
                Code::FailedPrecondition,
                "owning SpurJob identity changed while creating Service",
            ),
        );
    }
    if let Some(found) = status.service_dispatch_tokens.get(service_name) {
        if !is_blank(found) {
            return Ok(RecordStep::Recorded(found.clone()));
        }
    }
    record(fresh, "serviceDispatchTokens", service_name, token)
}

/// The token that a service is created with, a fresh one where its job has
/// recorded none.
pub fn ensure_service_dispatch_token(
    owner_uid: &str,
    identity: &PodExecutionIdentity,
    service_name: &str,
    fresh: &SpurJob,
) -> (out: Result<RecordStep, Status>)
    ensures
        exists|token: Seq<char>| #[trigger]
            is_random_uuid_text(token) && outcome_view(out) == service_token_recorded(
                owner_uid@,
                identity@,
                service_name@,
                fresh@,
                token,
            ),
{
    let token = fresh_token();
    service_token_step(owner_uid, identity, service_name, fresh, token.as_str())
}

/// Whether a created pod can be recorded at all: it has a name and a UID, is
/// owned by the job, and carries an identity with a dispatch token.
pub open spec fn recordable_pod(owner: SpurJobView, pod: PodView) -> Result<
    PodExecutionIdentityView,
    StatusView,
> {
    let meta = pod.metadata;
    if owner.metadata.namespace is None {
        Err(refusal(Code::FailedPrecondition, "owning SpurJob has no namespace"@))
    } else if owner.metadata.name is None {
        Err(refusal(Code::FailedPrecondition, "owning SpurJob has no name"@))
    } else if meta.name is None {
        Err(refusal(Code::FailedPrecondition, "created Pod has no name"@))
    } else if meta.uid is None {
        Err(refusal(Code::FailedPrecondition, "created Pod has no UID"@))
    } else if owner.metadata.uid is None {
        Err(refusal(Code::FailedPrecondition, "owning SpurJob has no UID"@))
    } else if !controlled_by(meta, owner.metadata.uid->0) {
        Err(
            refusal(
                Code::FailedPrecondition,
                "created Pod is not controller-owned by the exact SpurJob UID"@,
            ),
        )
    } else {
        match carried_identity(meta) {
            Err(message) => Err(refusal(Code::FailedPrecondition, message)),
            Ok(parsed) => if parsed.pod_dispatch_token.len() == 0 {
                Err(
                    refusal(
                        Code::FailedPrecondition,
                        "created Pod has no durable dispatch token"@,
                    ),
                )
            } else {
                Ok(parsed)
            },
        }
    }
}

/// Whether a created pod can be recorded at all.
pub fn check_created_pod(owner: &SpurJob, pod: &Pod) -> (out: Result<PodExecutionIdentity, Status>)
    ensures
        outcome_view(out) == recordable_pod(owner@, pod@),
{
    if owner.metadata.namespace.is_none() {
        return Err(Status::new(Code::FailedPrecondition, "owning SpurJob has no namespace"));
    }
    if owner.metadata.name.is_none() {
        return Err(Status::new(Code::FailedPrecondition, "owning SpurJob has no name"));
    }
    if pod.metadata.name.is_none() {
        return Err(Status::new(Code::FailedPrecondition, "created Pod has no name"));
    }
    if pod.metadata.uid.is_none() {
        return Err(Status::new(Code::FailedPrecondition, "created Pod has no UID"));
    }
    let owner_uid = match &owner.metadata.uid {
        None => return Err(Status::new(Code::FailedPrecondition, "owning SpurJob has no UID")),
        Some(uid) => uid,
    };
    if !resource_has_controller_owner(&pod.metadata, owner_uid.as_str()) {
        return Err(
            Status::new(
                Code::FailedPrecondition,
                "created Pod is not controller-owned by the exact SpurJob UID",
            ),
        );
    }
    match PodExecutionIdentity::from_pod(pod) {
        Err(message) => Err(Status { code: Code::FailedPrecondition, message }),
        Ok(parsed) => {
            if is_blank(&parsed.pod_dispatch_token) {
                Err(
                    Status::new(
                        Code::FailedPrecondition,
                        "created Pod has no durable dispatch token",
                    ),
                )
            } else {
                Ok(parsed)
            }
        },
    }
}

/// How the UID of a pod is recorded.
pub open spec fn pod_uid_recorded(
    owner_uid: Seq<char>,
    parsed: PodExecutionIdentityView,
    pod_name: Seq<char>,
    pod_uid: Seq<char>,
    fresh: SpurJobView,
) -> Result<RecordStepView, StatusView> {
    if fresh.metadata.uid != Some(owner_uid) {
        Err(
            refusal(
                Code::FailedPrecondition,
                "owning SpurJob was replaced before Pod provenance was recorded"@,
            ),
        )
    } else {
        match fresh.status {
            None => Err(
                refusal(Code::FailedPrecondition, "owning SpurJob has no durable status"@),
            ),
            Some(status) => if !same_submission(status, parsed) {
                Err(
                    refusal(
                        Code::FailedPrecondition,
                        "Pod identity no longer matches owning SpurJob status"@,
                    ),
                )
            } else if lookup(status.pod_dispatch_tokens, pod_name) != Some(
                parsed.pod_dispatch_token,
            ) {
                Err(
                    refusal(
                        Code::FailedPrecondition,
                        "Pod dispatch token is not bound in operator state"@,
                    ),
                )
            } else {
                match lookup(status.pod_uids, pod_name) {
                    Some(recorded) => if recorded == pod_uid {
                        Ok(RecordStepView::Recorded(pod_uid))
                    } else {
                        Err(
                            refusal(
                                Code::FailedPrecondition,
                                "Pod name is already bound to a different immutable UID"@,
                            ),
                        )
                    },
                    None => recording(fresh, "podUids"@, pod_name, pod_uid),
                }
            },
        }
    }
}

/// How the UID of a pod is recorded.
pub fn record_pod_provenance(
    owner_uid: &str,
    parsed: &PodExecutionIdentity,
    pod_name: &str,
    pod_uid: &str,
    fresh: &SpurJob,
) -> (out: Result<RecordStep, Status>)
    ensures
        outcome_view(out) == pod_uid_recorded(owner_uid@, parsed@, pod_name@, pod_uid@, fresh@),
{
    if !opt_reads(&fresh.metadata.uid, &owner_uid.to_owned()) {
        return Err(
            Status::new(
                Code::FailedPrecondition,
                "owning SpurJob was replaced before Pod provenance was recorded",
            ),
        );
    }
    let status = match &fresh.status {
        None => return Err(
            Status::new(Code::FailedPrecondition, "owning SpurJob has no durable status"),
        ),
        Some(status) => status,
    };
    if !is_same_submission(status, parsed) {
        return Err(
            Status::new(
                Code::FailedPrecondition,
                "Pod identity no longer matches owning SpurJob status",
            ),
        );
    }
    if !holds(status.pod_dispatch_tokens.get(pod_name), &parsed.pod_dispatch_token) {
        return Err(
            Status::new(
                Code::FailedPrecondition,
                "Pod dispatch token is not bound in operator state",
            ),
        );
    }
    match status.pod_uids.get(pod_name) {
        Some(recorded) => {
            if *recorded == pod_uid.to_owned() {
                Ok(RecordStep::Recorded(pod_uid.to_owned()))
            } else {
                Err(
                    Status::new(
                        Code::FailedPrecondition,
                        "Pod name is already bound to a different immutable UID",
                    ),
                )
            }
        },
        None => record(fresh, "podUids", pod_name, pod_uid),
    }
}

/// Whether a created service can be recorded at all.
pub open spec fn recordable_service(
    owner: SpurJobView,
    identity: PodExecutionIdentityView,
    service: ServiceView,
) -> Result<(), StatusView> {
    let meta = service.metadata;
    match key_of_owner(owner) {
        Err(status) => Err(status),
        Ok(key) => if meta.name is None {
            Err(refusal(Code::FailedPrecondition, "created Service has no name"@))
        } else if meta.uid is None {
            Err(refusal(Code::FailedPrecondition, "created Service has no UID"@))
        } else if !controlled_by(meta, key.uid) || !identity.owns_service(service) {
            Err(
                refusal(
                    Code::FailedPrecondition,
                    "created Service lacks exact immutable execution ownership"@,
                ),
            )
        } else {
            Ok(())
        },
    }
}

/// Whether a created service can be recorded at all.
pub fn check_created_service(
    owner: &SpurJob,
    identity: &PodExecutionIdentity,
    service: &Service,
) -> (out: Result<(), Status>)
    ensures
        match out {
            Ok(_) => recordable_service(owner@, identity@, service@) == Ok::<(), StatusView>(()),
            Err(status) => recordable_service(owner@, identity@, service@) == Err::<(), StatusView>(
                status@,
            ),
        },
{
    let key = match owner_key(owner) {
        Err(status) => return Err(status),
        Ok(key) => key,
    };
    if service.metadata.name.is_none() {
        return Err(Status::new(Code::FailedPrecondition, "created Service has no name"));
    }
    if service.metadata.uid.is_none() {
        return Err(Status::new(Code::FailedPrecondition, "created Service has no UID"));
    }
    if !resource_has_controller_owner(&service.metadata, key.uid.as_str())
        || !identity.owns_service(service) {
        return Err(
            Status::new(
                Code::FailedPrecondition,
                "created Service lacks exact immutable execution ownership",
            ),
        );
    }
    Ok(())
}

/// How the UID of a service is recorded.
pub open spec fn service_uid_recorded(
    owner_uid: Seq<char>,
    identity: PodExecutionIdentityView,
    annotations: Option<Map<Seq<char>, Seq<char>>>,
    service_name: Seq<char>,
    service_uid: Seq<char>,
    fresh: SpurJobView,
) -> Result<RecordStepView, StatusView> {
    if fresh.metadata.uid != Some(owner_uid) {
        Err(
            refusal(
                Code::FailedPrecondition,
                "owning SpurJob was replaced before Service provenance was recorded"@,
            ),
        )
    } else {
        match fresh.status {
            None => Err(
                refusal(Code::FailedPrecondition, "owning SpurJob has no durable status"@),
            ),
            Some(status) => if !describes_execution(status, identity) || status.submission_token
                != Some(identity.submission_token) {
                Err(
                    refusal(
                        Code::FailedPrecondition,
                        "Service identity no longer matches owning SpurJob status"@,
                    ),
                )
            } else {
                match nonempty(lookup_opt(annotations, SERVICE_DISPATCH_TOKEN_ANNOTATION@)) {
                    None => Err(
                        refusal(
                            Code::FailedPrecondition,
                            "created Service has no durable dispatch token"@,
                        ),
                    ),
                    Some(token) => if lookup(status.service_dispatch_tokens, service_name) != Some(
                        token,
                    ) {
                        Err(
                            refusal(
                                Code::FailedPrecondition,
                                "Service dispatch token is not bound in operator state"@,
                            ),
                        )
                    } else {
                        match lookup(status.service_uids, service_name) {
                            Some(recorded) => if recorded == service_uid {
                                Ok(RecordStepView::Recorded(service_uid))
                            } else {
                                Err(
                                    refusal(
                                        Code::FailedPrecondition,
                                        "Service name is already bound to a different immutable UID"@,
                                    ),
                                )
                            },
                            None => recording(fresh, "serviceUids"@, service_name, service_uid),
                        }
                    },
                }
            },
        }
    }
}

/// How the UID of a service is recorded. `annotations` are those of the service.
pub fn record_service_provenance(
    owner_uid: &str,
    identity: &PodExecutionIdentity,
    annotations: &Option<StrMap>,
    service_name: &str,
    service_uid: &str,
    fresh: &SpurJob,
) -> (out: Result<RecordStep, Status>)
    ensures
        outcome_view(out) == service_uid_recorded(
            owner_uid@,
            identity@,
            annotations.deep_view(),
            service_name@,
            service_uid@,
            fresh@,
        ),
{
    if !opt_reads(&fresh.metadata.uid, &owner_uid.to_owned()) {
        return Err(
            Status::new(
                Code::FailedPrecondition,
                "owning SpurJob was replaced before Service provenance was recorded",
            ),
        );
    }
    let status = match &fresh.status {
        None => return Err(
            Status::new(Code::FailedPrecondition, "owning SpurJob has no durable status"),
        ),
        Some(status) => status,
    };
    if !status_matches_execution(status, identity) || !opt_reads(
        &status.submission_token,
        &identity.submission_token,
    ) {
        return Err(
            Status::new(
                Code::FailedPrecondition,
                "Service identity no longer matches owning SpurJob status",
            ),
        );
    }
    let token: String = match get_opt(annotations, SERVICE_DISPATCH_TOKEN_ANNOTATION) {
        Some(token) => token.clone(),
        None => String::new(),
    };
    if is_blank(&token) {
        return Err(
            Status::new(Code::FailedPrecondition, "created Service has no durable dispatch token"),
        );
    }
    if !holds(status.service_dispatch_tokens.get(service_name), &token) {
        return Err(
            Status::new(
                Code::FailedPrecondition,
                "Service dispatch token is not bound in operator state",
            ),
        );
    }
    match status.service_uids.get(service_name) {
        Some(recorded) => {
            if *recorded == service_uid.to_owned() {
                Ok(RecordStep::Recorded(service_uid.to_owned()))
            } else {
                Err(
                    Status::new(
                        Code::FailedPrecondition,
                        "Service name is already bound to a different immutable UID",
                    ),
                )
            }
        },
        None => record(fresh, "serviceUids", service_name, service_uid),
    }
}

/// What came of an update.
#[derive(Debug)]
pub enum PatchReply {
    /// It was made.
    Applied,
    /// Another update came first.
    Conflict,
    /// It was not made, for this reason.
    Failed(String),
}

/// What follows an update.
#[derive(Clone, Copy, Debug, PartialEq, Eq, Structural)]
pub enum NextAttempt {
    /// Nothing: it was made.
    Done,
    /// Decide anew; this many attempts were made before.
    Retry(u32),
}

/// What follows the update made after `attempt` others.
pub open spec fn after_update(
    attempt: u32,
    reply: PatchReply,
    failure: Seq<char>,
    exhausted: Seq<char>,
) -> Result<NextAttempt, StatusView> {
    match reply {
        PatchReply::Applied => Ok(NextAttempt::Done),
        PatchReply::Failed(error) => Err(refusal(Code::Unavailable, failure + error@)),
        PatchReply::Conflict => if attempt + 1 < UPDATE_ATTEMPTS {
            Ok(NextAttempt::Retry((attempt + 1) as u32))
        } else {
            Err(refusal(Code::Aborted, exhausted))
        },
    }
}

fn follow_update(attempt: u32, reply: PatchReply, failure: &str, exhausted: &str) -> (out: Result<
    NextAttempt,
    Status,
>)
    ensures
        match out {
            Ok(next) => after_update(attempt, reply, failure@, exhausted@) == Ok::<
                NextAttempt,
                StatusView,
            >(next),
            Err(status) => after_update(attempt, reply, failure@, exhausted@) == Err::<
                NextAttempt,
                StatusView,
            >(status@),
        },
{
    match reply {
        PatchReply::Applied => Ok(NextAttempt::Done),
        PatchReply::Failed(error) => Err(
            Status { code: Code::Unavailable, message: join2(failure, error.as_str()) },
        ),
        PatchReply::Conflict => {
            if attempt < UPDATE_ATTEMPTS - 1 {
                Ok(NextAttempt::Retry(attempt + 1))
            } else {
                Err(Status::new(Code::Aborted, exhausted))
            }
        },
    }
}

/// What follows the update that records a pod's dispatch token.
pub fn pod_token_updated(attempt: u32, reply: PatchReply) -> (out: Result<NextAttempt, Status>)
    ensures
        match out {
            Ok(next) => after_update(
                attempt,
                reply,
                "failed to persist Pod dispatch token: "@,
                "concurrent Pod dispatch token updates did not converge"@,
            ) == Ok::<NextAttempt, StatusView>(next),
            Err(status) => after_update(
                attempt,
                reply,
                "failed to persist Pod dispatch token: "@,
                "concurrent Pod dispatch token updates did not converge"@,
            ) == Err::<NextAttempt, StatusView>(status@),
        },
{
    follow_update(
        attempt,
        reply,
        "failed to persist Pod dispatch token: ",
        "concurrent Pod dispatch token updates did not converge",
    )
}

/// What follows the update that records a service's dispatch token.
pub fn service_token_updated(attempt: u32, reply: PatchReply) -> (out: Result<NextAttempt, Status>)
    ensures
        match out {
            Ok(next) => after_update(
                attempt,
                reply,
                "failed to persist Service dispatch token: "@,
                "concurrent Service dispatch token updates did not converge"@,
            ) == Ok::<NextAttempt, StatusView>(next),
            Err(status) => after_update(
                attempt,
                reply,
                "failed to persist Service dispatch token: "@,
                "concurrent Service dispatch token updates did not converge"@,
            ) == Err::<NextAttempt, StatusView>(status@),
        },
{
    follow_update(
        attempt,
        reply,
        "failed to persist Service dispatch token: ",
        "concurrent Service dispatch token updates did not converge",
    )
}

/// What follows the update that records a pod's UID.
pub fn pod_uid_updated(attempt: u32, reply: PatchReply) -> (out: Result<NextAttempt, Status>)
    ensures
        match out {
            Ok(next) => after_update(
                attempt,
                reply,
                "failed to record Pod UID: "@,
                "concurrent Pod UID provenance updates did not converge"@,
            ) == Ok::<NextAttempt, StatusView>(next),
            Err(status) => after_update(
                attempt,
                reply,
                "failed to record Pod UID: "@,
                "concurrent Pod UID provenance updates did not converge"@,
            ) == Err::<NextAttempt, StatusView>(status@),
        },
{
    follow_update(
        attempt,
        reply,
        "failed to record Pod UID: ",
        "concurrent Pod UID provenance updates did not converge",
    )
}

/// What follows the update that records a service's UID.
pub fn service_uid_updated(attempt: u32, reply: PatchReply) -> (out: Result<NextAttempt, Status>)
    ensures
        match out {
            Ok(next) => after_update(
                attempt,
                reply,
                "failed to record Service UID: "@,
                "concurrent Service UID provenance updates did not converge"@,
            ) == Ok::<NextAttempt, StatusView>(next),
            Err(status) => after_update(
                attempt,
                reply,
                "failed to record Service UID: "@,
                "concurrent Service UID provenance updates did not converge"@,
            ) == Err::<NextAttempt, StatusView>(status@),
        },
{
    follow_update(
        attempt,
        reply,
        "failed to record Service UID: ",
        "concurrent Service UID provenance updates did not converge",
    )
}

/// An update is tried at most [`UPDATE_ATTEMPTS`] times: a retry follows only
/// fewer attempts than that.
pub proof fn law_updates_end(
    attempt: u32,
    reply: PatchReply,
    failure: Seq<char>,
    exhausted: Seq<char>,
)
    ensures
        after_update(attempt, reply, failure, exhausted) matches Ok(NextAttempt::Retry(next))
            ==> attempt < next < UPDATE_ATTEMPTS,
{
}

/// A recorded UID is never replaced by another: a step that makes an update for
/// a pod's UID finds none recorded under its name.
pub proof fn law_recorded_uid_is_final(
    owner_uid: Seq<char>,
    parsed: PodExecutionIdentityView,
    pod_name: Seq<char>,
    pod_uid: Seq<char>,
    fresh: SpurJobView,
)
    requires
        fresh.status matches Some(status) && lookup(status.pod_uids, pod_name) is Some,
    ensures
        !(pod_uid_recorded(owner_uid, parsed, pod_name, pod_uid, fresh) matches Ok(
            RecordStepView::Persist(_),
        )),
        pod_uid_recorded(owner_uid, parsed, pod_name, pod_uid, fresh) is Ok ==> lookup(
            (fresh.status->0).pod_uids,
            pod_name,
        ) == Some(pod_uid),
{
}

/// A recorded dispatch token is used again by every later attempt.
pub proof fn law_recorded_token_is_reused(
    owner_uid: Seq<char>,
    identity: PodExecutionIdentityView,
    pod_name: Seq<char>,
    fresh: SpurJobView,
    token: Seq<char>,
    other_token: Seq<char>,
)
    requires
        fresh.status matches Some(status) && nonempty(
            lookup(status.pod_dispatch_tokens, pod_name),
        ) is Some,
    ensures
        pod_token_recorded(owner_uid, identity, pod_name, fresh, token) == pod_token_recorded(
            owner_uid,
            identity,
            pod_name,
            fresh,
            other_token,
        ),
{
}

/// Once a pod's UID is recorded and the pod is marked as recorded, requests for
/// its execution may act on it.
pub proof fn law_recorded_pod_is_controlled(
    owner: SpurJobView,
    pod: PodView,
    parsed: PodExecutionIdentityView,
    requested: PodExecutionIdentityView,
    fresh: SpurJobView,
    marked: ObjectMetaView,
)
    requires
        recordable_pod(owner, pod) == Ok::<PodExecutionIdentityView, StatusView>(parsed),
        pod_uid_recorded(
            owner.metadata.uid->0,
            parsed,
            pod.metadata.name->0,
            pod.metadata.uid->0,
            fresh,
        ) == Ok::<RecordStepView, StatusView>(RecordStepView::Recorded(pod.metadata.uid->0)),
        parsed.submission_token.len() > 0,
        requested.key == parsed.key,
        requested.worker_incarnation == parsed.worker_incarnation,
        pod.metadata.annotations is Some,
        marked == (ObjectMetaView {
            annotations: Some(
                (pod.metadata.annotations->0).insert(PROVENANCE_RECORDED_ANNOTATION@, "true"@),
            ),
            ..pod.metadata
        }),
    ensures
        binds_control_pod(fresh.status->0, owner.metadata.uid->0, requested, marked),
{
    crate::execution_identity::lemma_names_distinct();
    let before = pod.metadata.annotations->0;
    let after = marked.annotations->0;
    assert(carried_identity(marked) == carried_identity(pod.metadata));
}

/// Whether a job as it was read is the one with this UID, and its status is
/// that of the submission of `identity`.
pub open spec fn is_still_the_job(
    fresh: SpurJobView,
    owner_uid: Seq<char>,
    identity: PodExecutionIdentityView,
) -> bool {
    &&& fresh.metadata.uid == Some(owner_uid)
    &&& fresh.status is Some
    &&& (fresh.status->0).spur_job_id == Some(identity.key.job_id)
    &&& (fresh.status->0).submission_generation == Some(identity.key.submission_generation)
    &&& (fresh.status->0).submission_token == Some(identity.submission_token)
}

/// The dispatch token of a pod is recorded under the pod's name, in the job that
/// the pod was dispatched for as it was read, and only where none is there; one
/// that is there is handed back.
pub proof fn law_pod_token_is_recorded_under_its_pod(
    owner_uid: Seq<char>,
    identity: PodExecutionIdentityView,
    pod_name: Seq<char>,
    fresh: SpurJobView,
    token: Seq<char>,
)
    ensures
        ({
            let tokens = (fresh.status->0).pod_dispatch_tokens;
            let there = tokens.contains_key(pod_name) && tokens[pod_name].len() > 0;
            let step = pod_token_recorded(owner_uid, identity, pod_name, fresh, token);
            &&& step is Ok <==> is_still_the_job(fresh, owner_uid, identity) && (there
                || fresh.metadata.resource_version is Some)
            &&& step is Ok && there ==> step->Ok_0 == RecordStepView::Recorded(tokens[pod_name])
            &&& step is Ok && !there ==> step->Ok_0 is Persist && {
                let patch = step->Ok_0->Persist_0;
                &&& patch.field == "podDispatchTokens"@
                &&& patch.key == pod_name
                &&& patch.value == token
                &&& fresh.metadata.resource_version == Some(patch.resource_version)
            }
        }),
{
}

/// The dispatch token of a service is recorded in the same way.
pub proof fn law_service_token_is_recorded_under_its_service(
    owner_uid: Seq<char>,
    identity: PodExecutionIdentityView,
    service_name: Seq<char>,
    fresh: SpurJobView,
    token: Seq<char>,
)
    ensures
        ({
            let tokens = (fresh.status->0).service_dispatch_tokens;
            let there = tokens.contains_key(service_name) && tokens[service_name].len() > 0;
            let step = service_token_recorded(owner_uid, identity, service_name, fresh, token);
            &&& step is Ok <==> is_still_the_job(fresh, owner_uid, identity)
                && identity.submission_token.len() > 0 && (there
                || fresh.metadata.resource_version is Some)
            &&& step is Ok && there ==> step->Ok_0 == RecordStepView::Recorded(
                tokens[service_name],
            )
            &&& step is Ok && !there ==> step->Ok_0 is Persist && {
                let patch = step->Ok_0->Persist_0;
                &&& patch.field == "serviceDispatchTokens"@
                &&& patch.key == service_name
                &&& patch.value == token
                &&& fresh.metadata.resource_version == Some(patch.resource_version)
            }
        }),
{
}

/// The UID of a pod is recorded under the pod's name, for a pod that carries the
/// token recorded there, and never over another UID.
pub proof fn law_pod_uid_is_recorded_under_its_pod(
    owner_uid: Seq<char>,
    parsed: PodExecutionIdentityView,
    pod_name: Seq<char>,
    pod_uid: Seq<char>,
    fresh: SpurJobView,
)
    ensures
        ({
            let status = fresh.status->0;
            let there = status.pod_uids.contains_key(pod_name);
            let step = pod_uid_recorded(owner_uid, parsed, pod_name, pod_uid, fresh);
            &&& step is Ok <==> is_still_the_job(fresh, owner_uid, parsed)
                && status.pod_dispatch_tokens.contains_key(pod_name)
                && status.pod_dispatch_tokens[pod_name] == parsed.pod_dispatch_token && (if there {
                status.pod_uids[pod_name] == pod_uid
            } else {
                fresh.metadata.resource_version is Some
            })
            &&& step is Ok && there ==> step->Ok_0 == RecordStepView::Recorded(pod_uid)
            &&& step is Ok && !there ==> step->Ok_0 is Persist && {
                let patch = step->Ok_0->Persist_0;
                &&& patch.field == "podUids"@
                &&& patch.key == pod_name
                &&& patch.value == pod_uid
                &&& fresh.metadata.resource_version == Some(patch.resource_version)
            }
        }),
{
}

/// The UID of a service is recorded in the same way.
pub proof fn law_service_uid_is_recorded_under_its_service(
    owner_uid: Seq<char>,
    identity: PodExecutionIdentityView,
    annotations: Map<Seq<char>, Seq<char>>,
    service_name: Seq<char>,
    service_uid: Seq<char>,
    fresh: SpurJobView,
)
    ensures
        ({
            let status = fresh.status->0;
            let there = status.service_uids.contains_key(service_name);
            let step = service_uid_recorded(
                owner_uid,
                identity,
                Some(annotations),
                service_name,
                service_uid,
                fresh,
            );
            &&& step is Ok <==> is_still_the_job(fresh, owner_uid, identity)
                && identity.submission_token.len() > 0
                && status.service_dispatch_tokens.contains_key(service_name)
                && annotations.contains_key(SERVICE_DISPATCH_TOKEN_ANNOTATION@)
                && annotations[SERVICE_DISPATCH_TOKEN_ANNOTATION@].len() > 0
                && status.service_dispatch_tokens[service_name]
                == annotations[SERVICE_DISPATCH_TOKEN_ANNOTATION@] && (if there {
                status.service_uids[service_name] == service_uid
            } else {
                fresh.metadata.resource_version is Some
            })
            &&& step is Ok && there ==> step->Ok_0 == RecordStepView::Recorded(service_uid)
            &&& step is Ok && !there ==> step->Ok_0 is Persist && {
                let patch = step->Ok_0->Persist_0;
                &&& patch.field == "serviceUids"@
                &&& patch.key == service_name
                &&& patch.value == service_uid
                &&& fresh.metadata.resource_version == Some(patch.resource_version)
            }
        }),
        service_uid_recorded(owner_uid, identity, None, service_name, service_uid, fresh) is Err,
{
}

/// A record that was written is found when the job is read again: the next
/// decision hands it back and writes nothing.
pub proof fn law_written_pod_record_is_found(
    owner_uid: Seq<char>,
    parsed: PodExecutionIdentityView,
    pod_name: Seq<char>,
    pod_uid: Seq<char>,
    token: Seq<char>,
    fresh: SpurJobView,
    later: SpurJobView,
)
    requires
        token.len() > 0,
        parsed.pod_dispatch_token == token,
        pod_token_recorded(owner_uid, parsed, pod_name, fresh, token) is Ok,
        later.metadata.uid == fresh.metadata.uid,
        later.status == Some(
            SpurJobStatusView {
                pod_dispatch_tokens: (fresh.status->0).pod_dispatch_tokens.insert(pod_name, token),
                pod_uids: (fresh.status->0).pod_uids.insert(pod_name, pod_uid),
                ..(fresh.status->0)
            },
        ),
    ensures
        pod_token_recorded(owner_uid, parsed, pod_name, later, token) == Ok::<
            RecordStepView,
            StatusView,
        >(RecordStepView::Recorded(token)),
        pod_uid_recorded(owner_uid, parsed, pod_name, pod_uid, later) == Ok::<
            RecordStepView,
            StatusView,
        >(RecordStepView::Recorded(pod_uid)),
{
}

/// A pod is recorded only where it has a name, a UID, a dispatch token of its
/// own and the job as its controller; the identity is the one it carries.
pub proof fn law_recordable_pod_is_the_jobs_own(owner: SpurJobView, pod: PodView)
    ensures
        recordable_pod(owner, pod) is Ok <==> owner.metadata.namespace is Some
            && owner.metadata.name is Some && owner.metadata.uid is Some && pod.metadata.name is Some
            && pod.metadata.uid is Some && has_controller(pod.metadata, owner.metadata.uid->0)
            && carried_identity(pod.metadata) is Ok && (carried_identity(
            pod.metadata,
        )->Ok_0).pod_dispatch_token.len() > 0,
        recordable_pod(owner, pod) matches Ok(parsed) ==> carried_identity(pod.metadata) == Ok::<
            PodExecutionIdentityView,
            Seq<char>,
        >(parsed),
{
    if owner.metadata.uid is Some {
        law_only_controllers_own(pod.metadata, owner.metadata.uid->0);
    }
}

/// A service is recorded only where it has a name and a UID, the job as its
/// controller, and names the execution.
pub proof fn law_recordable_service_is_the_jobs_own(
    owner: SpurJobView,
    identity: PodExecutionIdentityView,
    service: ServiceView,
)
    ensures
        recordable_service(owner, identity, service) is Ok <==> owner.metadata.namespace is Some
            && owner.metadata.name is Some && owner.metadata.uid is Some
            && service.metadata.name is Some && service.metadata.uid is Some && has_controller(
            service.metadata,
            owner.metadata.uid->0,
        ) && identity.owns_service(service),
{
    if owner.metadata.uid is Some {
        law_only_controllers_own(service.metadata, owner.metadata.uid->0);
    }
}

/// A job is found by its own namespace, name and UID.
pub proof fn law_owner_key_names_the_owner(owner: SpurJobView)
    ensures
        key_of_owner(owner) is Ok <==> owner.metadata.namespace is Some
            && owner.metadata.name is Some && owner.metadata.uid is Some,
        key_of_owner(owner) matches Ok(key) ==> owner.metadata.namespace == Some(key.namespace)
            && owner.metadata.name == Some(key.name) && owner.metadata.uid == Some(key.uid),
{
}

/// A lost race is decided anew, up to eight times in all; a failure is not, and
/// its reason is told.
pub proof fn law_lost_races_are_run_again(
    attempt: u32,
    error: String,
    failure: Seq<char>,
    exhausted: Seq<char>,
)
    ensures
        after_update(attempt, PatchReply::Applied, failure, exhausted) == Ok::<
            NextAttempt,
            StatusView,
        >(NextAttempt::Done),
        attempt < 7 ==> after_update(attempt, PatchReply::Conflict, failure, exhausted) == Ok::<
            NextAttempt,
            StatusView,
        >(NextAttempt::Retry((attempt + 1) as u32)),
        attempt >= 7 ==> after_update(attempt, PatchReply::Conflict, failure, exhausted) == Err::<
            NextAttempt,
            StatusView,
        >(StatusView { code: Code::Aborted, message: exhausted }),
        after_update(attempt, PatchReply::Failed(error), failure, exhausted) == Err::<
            NextAttempt,
            StatusView,
        >(StatusView { code: Code::Unavailable, message: failure + error@ }),
{
}

} // verus!
