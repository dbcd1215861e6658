//! Which cluster objects a worker-control request may act on.
//!
//! Labels and annotations can be changed by anyone who can edit an object. An
//! object is acted on only where the job that owns it has recorded the object's
//! UID, or at least the token it was dispatched with.

use vstd::prelude::*;
use crate::crd::{SpurJob, SpurJobStatus, SpurJobStatusView, SpurJobView};
use crate::execution_identity::{
    carried_identity, get_opt, holds, is_blank, lookup, lookup_opt, nonempty, PodExecutionIdentity,
    PodExecutionIdentityView, JOB_ID_LABEL, POD_DISPATCH_TOKEN_ANNOTATION,
    PROVENANCE_RECORDED_ANNOTATION, RUN_ATTEMPT_ANNOTATION, SERVICE_DISPATCH_TOKEN_ANNOTATION,
    SUBMISSION_GENERATION_ANNOTATION, SUBMISSION_GENERATION_LABEL, SUBMISSION_TOKEN_ANNOTATION,
    WORKER_INCARNATION_ANNOTATION,
};
use crate::k8s::{
    ObjectMeta, ObjectMetaView, OwnerReference, OwnerReferenceView, Pod, PodView, Service,
    ServiceView,
};
use crate::plain::Plain;
use crate::status::{outcome_view, refusal, Code, Status, StatusView};
use crate::text::{
    decimal, join2, join3, law_decimal_round_trip, parse_u32, same_text, u32_text, u64_text,
    unsigned_value,
};

verus! {

/// Whether the object with this UID is the controller of `meta`.
pub open spec fn controlled_by(meta: ObjectMetaView, owner_uid: Seq<char>) -> bool {
    match meta.owner_references {
        None => false,
        Some(owners) => exists|i: int|
            0 <= i < owners.len() && (#[trigger] owners[i]).uid == owner_uid && owners[i].controller
                == Some(true),
    }
}

/// Whether the object with this UID is the controller of `metadata`.
pub fn resource_has_controller_owner(metadata: &ObjectMeta, owner_uid: &str) -> (yes: bool)
    ensures
        yes == controlled_by(metadata@, owner_uid@),
{
    match &metadata.owner_references {
        None => false,
        Some(owners) => {
            let mut i: usize = 0;
            while i < owners.len()
                invariant
                    i <= owners@.len(),
                    metadata@.owner_references == Some(owners.deep_view()),
                    forall|j: int|
                        0 <= j < i ==> !((#[trigger] owners@[j]).uid@ == owner_uid@
                            && owners@[j].controller == Some(true)),
                decreases owners@.len() - i,
            {
                if same_text(owners[i].uid.as_str(), owner_uid) && owners[i].controller.equals(
                    &Some(true),
                ) {
                    proof {
                        let v = metadata@.owner_references->0;
                        assert(v[i as int] == owners@[i as int]@);
                    }
                    return true;
                }
                i = i + 1;
            }
            proof {
                let v = metadata@.owner_references->0;
                assert forall|j: int| 0 <= j < v.len() implies !((#[trigger] v[j]).uid == owner_uid@
                    && v[j].controller == Some(true)) by {
                    assert(v[j] == owners@[j]@);
                }
            }
            false
        },
    }
}

/// Whether a text is there and reads `expected`.
pub fn opt_reads(found: &Option<String>, expected: &String) -> (yes: bool)
    ensures
        yes == (found.deep_view() == Some(expected@)),
{
    match found {
        Some(value) => *value == *expected,
        None => false,
    }
}

/// Whether a text is there and is not empty.
pub fn opt_nonempty(found: &Option<String>) -> (yes: bool)
    ensures
        yes == (nonempty(found.deep_view()) is Some),
{
    match found {
        Some(value) => !is_blank(value),
        None => false,
    }
}

/// Whether the job's status describes the submission that an identity names.
pub open spec fn describes_execution(
    status: SpurJobStatusView,
    identity: PodExecutionIdentityView,
) -> bool {
    &&& status.spur_job_id == Some(identity.key.job_id)
    &&& status.submission_generation == Some(identity.key.submission_generation)
    &&& nonempty(status.submission_token) is Some
}

/// Whether the job's status describes the submission that an identity names.
pub fn status_matches_execution(status: &SpurJobStatus, identity: &PodExecutionIdentity) -> (yes:
    bool)
    ensures
        yes == describes_execution(status@, identity@),
{
    status.spur_job_id.equals(&Some(identity.key.job_id)) && opt_reads(
        &status.submission_generation,
        &identity.key.submission_generation,
    ) && opt_nonempty(&status.submission_token)
}

/// Whether a pod of `requested` carries the token that the job recorded for it.
pub open spec fn pod_carries_recorded_token(
    status: SpurJobStatusView,
    requested: PodExecutionIdentityView,
    meta: ObjectMetaView,
) -> bool {
    match (meta.name, carried_identity(meta)) {
        (Some(name), Ok(found)) => {
            &&& found.key == requested.key
            &&& found.worker_incarnation == requested.worker_incarnation
            &&& status.submission_token == Some(found.submission_token)
            &&& found.pod_dispatch_token.len() > 0
            &&& lookup(status.pod_dispatch_tokens, name) == Some(found.pod_dispatch_token)
        },
        _ => false,
    }
}

/// Whether a control operation for `requested` may act on the pod: the job owns
/// it, and recorded its token and its UID.
pub open spec fn binds_control_pod(
    status: SpurJobStatusView,
    owner_uid: Seq<char>,
    requested: PodExecutionIdentityView,
    meta: ObjectMetaView,
) -> bool {
    &&& describes_execution(status, requested)
    &&& controlled_by(meta, owner_uid)
    &&& lookup_opt(meta.annotations, PROVENANCE_RECORDED_ANNOTATION@) == Some("true"@)
    &&& pod_carries_recorded_token(status, requested, meta)
    &&& meta.uid is Some
    &&& lookup(status.pod_uids, meta.name->0) == meta.uid
}

/// Whether cleanup for `requested` may act on the pod: the job owns it and
/// recorded its token, and recorded no other UID under its name.
pub open spec fn binds_cleanup_pod(
    status: SpurJobStatusView,
    owner_uid: Seq<char>,
    requested: PodExecutionIdentityView,
    meta: ObjectMetaView,
) -> bool {
    &&& describes_execution(status, requested)
    &&& controlled_by(meta, owner_uid)
    &&& pod_carries_recorded_token(status, requested, meta)
    &&& meta.uid is Some
    &&& lookup(status.pod_uids, meta.name->0) is None || lookup(status.pod_uids, meta.name->0)
        == meta.uid
}

fn carries_recorded_token(
    status: &SpurJobStatus,
    requested: &PodExecutionIdentity,
    pod: &Pod,
) -> (yes: bool)
    ensures
        yes == pod_carries_recorded_token(status@, requested@, pod@.metadata),
{
    let name = match &pod.metadata.name {
        None => return false,
        Some(name) => name,
    };
    match PodExecutionIdentity::from_pod(pod) {
        Err(_) => false,
        Ok(found) => found.key.equals(&requested.key) && found.worker_incarnation
            == requested.worker_incarnation && opt_reads(
            &status.submission_token,
            &found.submission_token,
        ) && !is_blank(&found.pod_dispatch_token) && holds(
            status.pod_dispatch_tokens.get(name.as_str()),
            &found.pod_dispatch_token,
        ),
    }
}

/// Whether a control operation for `requested` may act on the pod.
pub fn status_binds_control_pod(
    status: &SpurJobStatus,
    owner_uid: &str,
    requested: &PodExecutionIdentity,
    pod: &Pod,
) -> (yes: bool)
    ensures
        yes == binds_control_pod(status@, owner_uid@, requested@, pod@.metadata),
{
    if !status_matches_execution(status, requested) || !resource_has_controller_owner(
        &pod.metadata,
        owner_uid,
    ) || !holds(
        get_opt(&pod.metadata.annotations, PROVENANCE_RECORDED_ANNOTATION),
        &"true".to_owned(),
    ) || !carries_recorded_token(status, requested, pod) {
        return false;
    }
    match (&pod.metadata.name, &pod.metadata.uid) {
        (Some(name), Some(uid)) => holds(status.pod_uids.get(name.as_str()), uid),
        _ => false,
    }
}

/// Whether cleanup for `requested` may act on the pod.
pub fn status_binds_cleanup_pod(
    status: &SpurJobStatus,
    owner_uid: &str,
    requested: &PodExecutionIdentity,
    pod: &Pod,
) -> (yes: bool)
    ensures
        yes == binds_cleanup_pod(status@, owner_uid@, requested@, pod@.metadata),
{
    if !status_matches_execution(status, requested) || !resource_has_controller_owner(
        &pod.metadata,
        owner_uid,
    ) || !carries_recorded_token(status, requested, pod) {
        return false;
    }
    match (&pod.metadata.name, &pod.metadata.uid) {
        (Some(name), Some(uid)) => match status.pod_uids.get(name.as_str()) {
            None => true,
            Some(recorded) => *recorded == *uid,
        },
        _ => false,
    }
}

/// Whether a control operation may act on the service of an execution.
pub open spec fn binds_control_service(
    status: SpurJobStatusView,
    owner_uid: Seq<char>,
    identity: PodExecutionIdentityView,
    service: ServiceView,
) -> bool {
    &&& describes_execution(status, identity)
    &&& controlled_by(service.metadata, owner_uid)
    &&& identity.owns_service(service)
    &&& service.metadata.name is Some
    &&& service.metadata.uid is Some
    &&& lookup(status.service_uids, service.metadata.name->0) == service.metadata.uid
}

/// Whether cleanup may act on the service of an execution.
pub open spec fn binds_cleanup_service(
    status: SpurJobStatusView,
    owner_uid: Seq<char>,
    identity: PodExecutionIdentityView,
    service: ServiceView,
) -> bool {
    let meta = service.metadata;
    let token = lookup_opt(meta.annotations, SERVICE_DISPATCH_TOKEN_ANNOTATION@);
    &&& describes_execution(status, identity)
    &&& controlled_by(meta, owner_uid)
    &&& identity.owns_service(service)
    &&& meta.name is Some
    &&& meta.uid is Some
    &&& token is Some
    &&& lookup(status.service_dispatch_tokens, meta.name->0) == token
    &&& lookup(status.service_uids, meta.name->0) is None || lookup(
        status.service_uids,
        meta.name->0,
    ) == meta.uid
}

/// Whether a control operation may act on the service of an execution.
pub fn status_binds_control_service(
    status: &SpurJobStatus,
    owner_uid: &str,
    identity: &PodExecutionIdentity,
    service: &Service,
) -> (yes: bool)
    ensures
        yes == binds_control_service(status@, owner_uid@, identity@, service@),
{
    if !status_matches_execution(status, identity) || !resource_has_controller_owner(
        &service.metadata,
        owner_uid,
    ) || !identity.owns_service(service) {
        return false;
    }
    match (&service.metadata.name, &service.metadata.uid) {
        (Some(name), Some(uid)) => holds(status.service_uids.get(name.as_str()), uid),
        _ => false,
    }
}

/// Whether cleanup may act on the service of an execution.
pub fn status_binds_cleanup_service(
    status: &SpurJobStatus,
    owner_uid: &str,
    identity: &PodExecutionIdentity,
    service: &Service,
) -> (yes: bool)
    ensures
        yes == binds_cleanup_service(status@, owner_uid@, identity@, service@),
{
    if !status_matches_execution(status, identity) || !resource_has_controller_owner(
        &service.metadata,
        owner_uid,
    ) || !identity.owns_service(service) {
        return false;
    }
    match (&service.metadata.name, &service.metadata.uid) {
        (Some(name), Some(uid)) => {
            match get_opt(&service.metadata.annotations, SERVICE_DISPATCH_TOKEN_ANNOTATION) {
                None => false,
                Some(token) => holds(status.service_dispatch_tokens.get(name.as_str()), token)
                    && match status.service_uids.get(name.as_str()) {
                    None => true,
                    Some(recorded) => *recorded == *uid,
                },
            }
        },
        _ => false,
    }
}

/// What a control operation makes of one listed object.
pub enum Verdict {
    /// The object is of no concern.
    Skip,
    /// The object is one to act on.
    Keep,
    /// The object makes the whole operation unsafe, for this reason.
    Refuse(Seq<char>),
}

/// How an object that may have no name is called in a message.
pub open spec fn called(name: Option<Seq<char>>) -> Seq<char> {
    match name {
        Some(n) => n,
        None => "<unnamed>"@,
    }
}

fn name_for_message(name: &Option<String>) -> (out: String)
    ensures
        out@ == called(name.deep_view()),
{
    match name {
        Some(n) => n.clone(),
        None => "<unnamed>".to_owned(),
    }
}

/// What a control operation for `requested` makes of a listed pod. Pods of
/// another owner are skipped whatever they carry: the job label can be forged,
/// and a forged one must not block the operation.
pub open spec fn pod_verdict(
    status: SpurJobStatusView,
    owner_uid: Seq<char>,
    requested: PodExecutionIdentityView,
    pod: PodView,
    allow_cleanup_recovery: bool,
) -> Verdict {
    if !controlled_by(pod.metadata, owner_uid) {
        Verdict::Skip
    } else {
        match carried_identity(pod.metadata) {
            Err(error) => Verdict::Refuse(
                "numeric-job Pod "@ + called(pod.metadata.name)
                    + " has ambiguous legacy identity: "@ + error,
            ),
            Ok(found) => if found.key == requested.key && found.worker_incarnation
                == requested.worker_incarnation {
                if binds_control_pod(status, owner_uid, requested, pod.metadata)
                    || allow_cleanup_recovery && binds_cleanup_pod(
                    status,
                    owner_uid,
                    requested,
                    pod.metadata,
                ) {
                    Verdict::Keep
                } else {
                    Verdict::Refuse(
                        "Pod "@ + called(pod.metadata.name)
                            + " claims the requested execution but lacks immutable CR provenance"@,
                    )
                }
            } else {
                Verdict::Skip
            },
        }
    }
}

/// The objects to act on, or the reason given by the first object that makes the
/// operation unsafe.
pub open spec fn classified<A>(items: Seq<A>, verdict: spec_fn(A) -> Verdict) -> Result<
    Seq<A>,
    Seq<char>,
>
    decreases items.len(),
{
    if items.len() == 0 {
        Ok(Seq::empty())
    } else {
        match classified(items.drop_last(), verdict) {
            Err(reason) => Err(reason),
            Ok(kept) => match verdict(items.last()) {
                Verdict::Skip => Ok(kept),
                Verdict::Keep => Ok(kept.push(items.last())),
                Verdict::Refuse(reason) => Err(reason),
            },
        }
    }
}

/// Once a prefix of the objects is refused, all of them are.
proof fn lemma_refusal_stays<A>(items: Seq<A>, upto: int, verdict: spec_fn(A) -> Verdict)
    requires
        0 <= upto <= items.len(),
        classified(items.take(upto), verdict) is Err,
    ensures
        classified(items, verdict) == classified(items.take(upto), verdict),
    decreases items.len(),
{
    if upto == items.len() {
        assert(items.take(upto) =~= items);
    } else {
        assert(items.drop_last().take(upto) =~= items.take(upto));
        lemma_refusal_stays(items.drop_last(), upto, verdict);
    }
}

/// Everything that is kept was listed and got the verdict to keep it.
pub proof fn lemma_classified_kept<A>(items: Seq<A>, verdict: spec_fn(A) -> Verdict)
    ensures
        classified(items, verdict) matches Ok(kept) ==> forall|i: int|
            0 <= i < kept.len() ==> verdict(#[trigger] kept[i]) is Keep && items.contains(kept[i]),
    decreases items.len(),
{
    if items.len() > 0 {
        lemma_classified_kept(items.drop_last(), verdict);
        if let Ok(kept) = classified(items, verdict) {
            assert forall|i: int| 0 <= i < kept.len() implies verdict(#[trigger] kept[i]) is Keep
                && items.contains(kept[i]) by {
                let before = classified(items.drop_last(), verdict)->Ok_0;
                if i < before.len() {
                    assert(before[i] == kept[i]);
                    let j = choose|j: int|
                        0 <= j < items.drop_last().len() && items.drop_last()[j] == before[i];
                    assert(items[j] == kept[i]);
                } else {
                    assert(items[items.len() - 1] == kept[i]);
                }
            }
        }
    }
}

/// The pods that a control operation for `requested` acts on.
pub open spec fn control_pods(
    status: SpurJobStatusView,
    owner_uid: Seq<char>,
    requested: PodExecutionIdentityView,
    pods: Seq<PodView>,
    allow_cleanup_recovery: bool,
) -> Result<Seq<PodView>, Seq<char>> {
    classified(
        pods,
        |pod: PodView| pod_verdict(status, owner_uid, requested, pod, allow_cleanup_recovery),
    )
}

/// A list whose failure is a message, by what it holds.
pub open spec fn list_view<T: DeepView>(outcome: Result<Vec<T>, String>) -> Result<
    Seq<T::V>,
    Seq<char>,
> {
    match outcome {
        Ok(items) => Ok(items.deep_view()),
        Err(message) => Err(message@),
    }
}

/// The pods that a control operation for `requested` acts on.
pub fn classify_control_pods(
    status: &SpurJobStatus,
    owner_uid: &str,
    requested: &PodExecutionIdentity,
    pods: Vec<Pod>,
    allow_cleanup_recovery: bool,
) -> (out: Result<Vec<Pod>, String>)
    ensures
        list_view(out) == control_pods(
            status@,
            owner_uid@,
            requested@,
            pods.deep_view(),
            allow_cleanup_recovery,
        ),
{
    let ghost verdict = |pod: PodView|
        pod_verdict(status@, owner_uid@, requested@, pod, allow_cleanup_recovery);
    let ghost items = pods.deep_view();
    let mut exact: Vec<Pod> = Vec::new();
    let mut i: usize = 0;
    proof {
        assert(items.take(0) =~= Seq::<PodView>::empty());
        assert(exact.deep_view() =~= Seq::<PodView>::empty());
    }
    while i < pods.len()
        invariant
            i <= pods@.len(),
            items == pods.deep_view(),
            verdict == (|pod: PodView|
                pod_verdict(status@, owner_uid@, requested@, pod, allow_cleanup_recovery)),
            classified(items.take(i as int), verdict) == Ok::<Seq<PodView>, Seq<char>>(
                exact.deep_view(),
            ),
        decreases pods@.len() - i,
    {
        let pod = &pods[i];
        let ghost upto = items.take(i + 1);
        proof {
            assert(upto.drop_last() =~= items.take(i as int));
            assert(upto.last() == pod@);
        }
        if resource_has_controller_owner(&pod.metadata, owner_uid) {
            match PodExecutionIdentity::from_pod(pod) {
                Ok(found) => {
                    if found.key.equals(&requested.key) && found.worker_incarnation
                        == requested.worker_incarnation {
                        if status_binds_control_pod(status, owner_uid, requested, pod) || (
                        allow_cleanup_recovery && status_binds_cleanup_pod(
                            status,
                            owner_uid,
                            requested,
                            pod,
                        )) {
                            let ghost before = exact.deep_view();
                            exact.push(pod.copy_of());
                            proof {
                                assert(exact.deep_view() =~= before.push(pod@));
                            }
                        } else {
                            let name = name_for_message(&pod.metadata.name);
                            proof {
                                lemma_refusal_stays(items, i + 1, verdict);
                            }
                            return Err(
                                join3(
                                    "Pod ",
                                    name.as_str(),
                                    " claims the requested execution but lacks immutable CR provenance",
                                ),
                            );
                        }
                    }
                },
                Err(error) => {
                    let name = name_for_message(&pod.metadata.name);
                    let head = join3(
                        "numeric-job Pod ",
                        name.as_str(),
                        " has ambiguous legacy identity: ",
                    );
                    proof {
                        lemma_refusal_stays(items, i + 1, verdict);
                    }
                    return Err(join2(head.as_str(), error.as_str()));
                },
            }
        }
        i = i + 1;
    }
    proof {
        assert(items.take(i as int) =~= items);
    }
    Ok(exact)
}

/// Whether a service says that it belongs to the execution; nothing where its
/// annotations do not tell.
pub open spec fn claims_execution(
    service: ServiceView,
    identity: PodExecutionIdentityView,
) -> Option<bool> {
    match (
        lookup_opt(service.metadata.annotations, SUBMISSION_GENERATION_ANNOTATION@),
        lookup_opt(service.metadata.annotations, RUN_ATTEMPT_ANNOTATION@),
    ) {
        (Some(generation), Some(attempt)) => match unsigned_value(attempt, u32::MAX as nat) {
            Err(_) => None,
            Ok(n) => Some(
                generation == identity.key.submission_generation && n
                    == identity.key.run_attempt as nat,
            ),
        },
        _ => None,
    }
}

/// Whether a service says that it belongs to the execution.
pub fn service_claims_execution(service: &Service, identity: &PodExecutionIdentity) -> (out: Option<
    bool,
>)
    ensures
        out == claims_execution(service@, identity@),
{
    let generation = match get_opt(
        &service.metadata.annotations,
        SUBMISSION_GENERATION_ANNOTATION,
    ) {
        None => return None,
        Some(generation) => generation,
    };
    let attempt = match get_opt(&service.metadata.annotations, RUN_ATTEMPT_ANNOTATION) {
        None => return None,
        Some(attempt) => attempt,
    };
    match parse_u32(attempt.as_str()) {
        Err(_) => None,
        Ok(n) => Some(
            *generation == identity.key.submission_generation && n == identity.key.run_attempt,
        ),
    }
}

/// What a control operation makes of a listed service.
pub open spec fn service_verdict(
    status: SpurJobStatusView,
    owner_uid: Seq<char>,
    identity: PodExecutionIdentityView,
    service: ServiceView,
    allow_cleanup_recovery: bool,
) -> Verdict {
    if !controlled_by(service.metadata, owner_uid) {
        Verdict::Skip
    } else {
        match claims_execution(service, identity) {
            Some(true) => if binds_control_service(status, owner_uid, identity, service)
                || allow_cleanup_recovery && binds_cleanup_service(
                status,
                owner_uid,
                identity,
                service,
            ) {
                Verdict::Keep
            } else {
                Verdict::Refuse(
                    "Service "@ + called(service.metadata.name)
                        + " claims the requested execution but lacks immutable CR provenance"@,
                )
            },
            Some(false) => Verdict::Skip,
            None => Verdict::Refuse(
                "numeric-job Service "@ + called(service.metadata.name)
                    + " has ambiguous legacy identity"@,
            ),
        }
    }
}

/// The services that a control operation acts on.
pub open spec fn control_services(
    status: SpurJobStatusView,
    owner_uid: Seq<char>,
    identity: PodExecutionIdentityView,
    services: Seq<ServiceView>,
    allow_cleanup_recovery: bool,
) -> Result<Seq<ServiceView>, Seq<char>> {
    classified(
        services,
        |service: ServiceView|
            service_verdict(status, owner_uid, identity, service, allow_cleanup_recovery),
    )
}

/// The services that a control operation acts on.
pub fn classify_control_services(
    status: &SpurJobStatus,
    owner_uid: &str,
    identity: &PodExecutionIdentity,
    services: Vec<Service>,
    allow_cleanup_recovery: bool,
) -> (out: Result<Vec<Service>, String>)
    ensures
        list_view(out) == control_services(
            status@,
            owner_uid@,
            identity@,
            services.deep_view(),
            allow_cleanup_recovery,
        ),
{
    let ghost verdict = |service: ServiceView|
        service_verdict(status@, owner_uid@, identity@, service, allow_cleanup_recovery);
    let ghost items = services.deep_view();
    let mut exact: Vec<Service> = Vec::new();
    let mut i: usize = 0;
    proof {
        assert(items.take(0) =~= Seq::<ServiceView>::empty());
        assert(exact.deep_view() =~= Seq::<ServiceView>::empty());
    }
    while i < services.len()
        invariant
            i <= services@.len(),
            items == services.deep_view(),
            verdict == (|service: ServiceView|
                service_verdict(status@, owner_uid@, identity@, service, allow_cleanup_recovery)),
            classified(items.take(i as int), verdict) == Ok::<Seq<ServiceView>, Seq<char>>(
                exact.deep_view(),
            ),
        decreases services@.len() - i,
    {
        let service = &services[i];
        let ghost upto = items.take(i + 1);
        proof {
            assert(upto.drop_last() =~= items.take(i as int));
            assert(upto.last() == service@);
        }
        if resource_has_controller_owner(&service.metadata, owner_uid) {
            match service_claims_execution(service, identity) {
                Some(true) => {
                    if status_binds_control_service(status, owner_uid, identity, service) || (
                    allow_cleanup_recovery && status_binds_cleanup_service(
                        status,
                        owner_uid,
                        identity,
                        service,
                    )) {
                        let ghost before = exact.deep_view();
                        exact.push(service.copy_of());
                        proof {
                            assert(exact.deep_view() =~= before.push(service@));
                        }
                    } else {
                        let name = name_for_message(&service.metadata.name);
                        proof {
                            lemma_refusal_stays(items, i + 1, verdict);
                        }
                        return Err(
                            join3(
                                "Service ",
                                name.as_str(),
                                " claims the requested execution but lacks immutable CR provenance",
                            ),
                        );
                    }
                },
                Some(false) => {},
                None => {
                    let name = name_for_message(&service.metadata.name);
                    proof {
                        lemma_refusal_stays(items, i + 1, verdict);
                    }
                    return Err(
                        join3(
                            "numeric-job Service ",
                            name.as_str(),
                            " has ambiguous legacy identity",
                        ),
                    );
                },
            }
        }
        i = i + 1;
    }
    proof {
        assert(items.take(i as int) =~= items);
    }
    Ok(exact)
}

/// What may be controlled may be cleaned up.
pub proof fn law_control_pod_is_cleanup_pod(
    status: SpurJobStatusView,
    owner_uid: Seq<char>,
    requested: PodExecutionIdentityView,
    meta: ObjectMetaView,
)
    requires
        binds_control_pod(status, owner_uid, requested, meta),
    ensures
        binds_cleanup_pod(status, owner_uid, requested, meta),
{
}

/// A pod is bound by at most one execution: two requests that may both act on
/// it, even for cleanup, name the same job, generation, attempt and worker.
pub proof fn law_pod_bound_by_one_execution(
    status: SpurJobStatusView,
    owner_uid: Seq<char>,
    a: PodExecutionIdentityView,
    b: PodExecutionIdentityView,
    meta: ObjectMetaView,
)
    requires
        binds_cleanup_pod(status, owner_uid, a, meta),
        binds_cleanup_pod(status, owner_uid, b, meta),
    ensures
        a.key == b.key,
        a.worker_incarnation == b.worker_incarnation,
{
}

/// Every pod that a control operation acts on was listed, belongs to the job,
/// carries the requested execution and has a UID that the job recorded, or,
/// where recovery is allowed, a token that the job recorded.
pub proof fn law_controlled_pods_are_bound(
    status: SpurJobStatusView,
    owner_uid: Seq<char>,
    requested: PodExecutionIdentityView,
    pods: Seq<PodView>,
    allow_cleanup_recovery: bool,
)
    ensures
        control_pods(status, owner_uid, requested, pods, allow_cleanup_recovery) matches Ok(kept)
            ==> forall|i: int|
            0 <= i < kept.len() ==> {
                let pod = #[trigger] kept[i];
                &&& pods.contains(pod)
                &&& controlled_by(pod.metadata, owner_uid)
                &&& if allow_cleanup_recovery {
                    binds_cleanup_pod(status, owner_uid, requested, pod.metadata)
                } else {
                    binds_control_pod(status, owner_uid, requested, pod.metadata)
                }
            },
{
    let verdict = |pod: PodView|
        pod_verdict(status, owner_uid, requested, pod, allow_cleanup_recovery);
    lemma_classified_kept(pods, verdict);
}

/// Every service that a control operation acts on was listed, belongs to the
/// job and the execution, and has a UID or, where recovery is allowed, a token
/// that the job recorded.
pub proof fn law_controlled_services_are_bound(
    status: SpurJobStatusView,
    owner_uid: Seq<char>,
    identity: PodExecutionIdentityView,
    services: Seq<ServiceView>,
    allow_cleanup_recovery: bool,
)
    ensures
        control_services(status, owner_uid, identity, services, allow_cleanup_recovery) matches Ok(
            kept,
        ) ==> forall|i: int|
            0 <= i < kept.len() ==> {
                let service = #[trigger] kept[i];
                &&& services.contains(service)
                &&& binds_control_service(status, owner_uid, identity, service)
                    || allow_cleanup_recovery && binds_cleanup_service(
                    status,
                    owner_uid,
                    identity,
                    service,
                )
            },
{
    let verdict = |service: ServiceView|
        service_verdict(status, owner_uid, identity, service, allow_cleanup_recovery);
    lemma_classified_kept(services, verdict);
}

/// Pods of other owners have no influence: adding one to the list changes
/// nothing, whatever it carries.
pub proof fn law_foreign_pods_are_ignored(
    status: SpurJobStatusView,
    owner_uid: Seq<char>,
    requested: PodExecutionIdentityView,
    pods: Seq<PodView>,
    foreign: PodView,
    allow_cleanup_recovery: bool,
)
    requires
        !controlled_by(foreign.metadata, owner_uid),
    ensures
        control_pods(status, owner_uid, requested, pods.push(foreign), allow_cleanup_recovery)
            == control_pods(status, owner_uid, requested, pods, allow_cleanup_recovery),
{
    assert(pods.push(foreign).drop_last() =~= pods);
}

/// Whether a listed job is the one that an identity names. A launch carries the
/// submission token and must agree with it; other requests carry none.
pub open spec fn job_is_exact(identity: PodExecutionIdentityView, job: SpurJobView) -> bool {
    match job.status {
        None => false,
        Some(status) => {
            &&& status.spur_job_id == Some(identity.key.job_id)
            &&& status.submission_generation == Some(identity.key.submission_generation)
            &&& nonempty(status.submission_token) is Some
            &&& identity.submission_token.len() == 0 || status.submission_token == Some(
                identity.submission_token,
            )
            &&& lookup_opt(job.metadata.labels, SUBMISSION_GENERATION_LABEL@) == Some(
                identity.key.submission_generation,
            )
        },
    }
}

fn is_exact_job(identity: &PodExecutionIdentity, job: &SpurJob) -> (yes: bool)
    ensures
        yes == job_is_exact(identity@, job@),
{
    match &job.status {
        None => false,
        Some(status) => status_matches_execution(status, identity) && (is_blank(
            &identity.submission_token,
        ) || opt_reads(&status.submission_token, &identity.submission_token)) && holds(
            get_opt(&job.metadata.labels, SUBMISSION_GENERATION_LABEL),
            &identity.key.submission_generation,
        ),
    }
}

/// The positions of the listed jobs that an identity names.
pub open spec fn exact_job_count(identity: PodExecutionIdentityView, jobs: Seq<SpurJobView>) -> nat
    decreases jobs.len(),
{
    if jobs.len() == 0 {
        0
    } else {
        exact_job_count(identity, jobs.drop_last()) + if job_is_exact(identity, jobs.last()) {
            1nat
        } else {
            0
        }
    }
}

proof fn lemma_count_grows(identity: PodExecutionIdentityView, jobs: Seq<SpurJobView>, upto: int)
    requires
        0 <= upto <= jobs.len(),
    ensures
        exact_job_count(identity, jobs.take(upto)) <= exact_job_count(identity, jobs),
    decreases jobs.len(),
{
    if upto == jobs.len() {
        assert(jobs.take(upto) =~= jobs);
    } else {
        assert(jobs.drop_last().take(upto) =~= jobs.take(upto));
        lemma_count_grows(identity, jobs.drop_last(), upto);
    }
}

/// The one listed job that an identity names. None: the job is not visible yet.
/// Several: no job is chosen.
pub fn resolve_spur_job(identity: &PodExecutionIdentity, jobs: Vec<SpurJob>) -> (out: Result<
    SpurJob,
    Status,
>)
    ensures
        match out {
            Ok(job) => exact_job_count(identity@, jobs.deep_view()) == 1 && job_is_exact(
                identity@,
                job@,
            ) && jobs.deep_view().contains(job@),
            Err(status) => {
                let n = exact_job_count(identity@, jobs.deep_view());
                let id = decimal(identity@.key.job_id as nat);
                ||| n == 0 && status@ == refusal(
                    Code::NotFound,
                    "exact SpurJob identity for job "@ + id + " is not yet visible"@,
                )
                ||| n > 1 && status@ == refusal(
                    Code::FailedPrecondition,
                    "exact job "@ + id + " identity matches multiple SpurJobs"@,
                )
            },
        },
{
    let ghost items = jobs.deep_view();
    let mut found: Option<usize> = None;
    let mut i: usize = 0;
    proof {
        assert(items.take(0) =~= Seq::<SpurJobView>::empty());
    }
    while i < jobs.len()
        invariant
            i <= jobs@.len(),
            items == jobs.deep_view(),
            match found {
                None => exact_job_count(identity@, items.take(i as int)) == 0,
                Some(k) => k < i && job_is_exact(identity@, items[k as int]) && exact_job_count(
                    identity@,
                    items.take(i as int),
                ) == 1,
            },
        decreases jobs@.len() - i,
    {
        proof {
            assert(items.take(i + 1).drop_last() =~= items.take(i as int));
            assert(items.take(i + 1).last() == jobs@[i as int]@);
        }
        if is_exact_job(identity, &jobs[i]) {
            if found.is_some() {
                proof {
                    lemma_count_grows(identity@, items, i + 1);
                }
                let id = u32_text(identity.key.job_id);
                return Err(
                    Status {
                        code: Code::FailedPrecondition,
                        message: join3(
                            "exact job ",
                            id.as_str(),
                            " identity matches multiple SpurJobs",
                        ),
                    },
                );
            }
            found = Some(i);
        }
        i = i + 1;
    }
    proof {
        assert(items.take(i as int) =~= items);
    }
    match found {
        Some(k) => {
            proof {
                assert(items[k as int] == jobs@[k as int]@);
            }
            Ok(jobs[k].copy_of())
        },
        None => {
            let id = u32_text(identity.key.job_id);
            Err(
                Status {
                    code: Code::NotFound,
                    message: join3(
                        "exact SpurJob identity for job ",
                        id.as_str(),
                        " is not yet visible",
                    ),
                },
            )
        },
    }
}

/// Whether a failed lookup of a job is tried again.
pub fn lookup_is_retried(status: &Status) -> (yes: bool)
    ensures
        yes == (status@.code == Code::Unavailable || status@.code == Code::NotFound),
{
    status.code == Code::Unavailable || status.code == Code::NotFound
}

/// The refusal of a lookup that took longer than `budget_secs`.
pub fn lookup_timed_out(identity: &PodExecutionIdentity, budget_secs: u64) -> (out: Status)
    ensures
        out@ == refusal(
            Code::DeadlineExceeded,
            "exact SpurJob lookup for job "@ + decimal(identity@.key.job_id as nat)
                + " timed out after "@ + decimal(budget_secs as nat) + "s"@,
        ),
{
    let id = u32_text(identity.key.job_id);
    let secs = u64_text(budget_secs);
    let head = join3("exact SpurJob lookup for job ", id.as_str(), " timed out after ");
    Status { code: Code::DeadlineExceeded, message: join3(head.as_str(), secs.as_str(), "s") }
}

/// The requested identity with the submission token that its job recorded.
pub open spec fn hydrated_identity(
    owner: SpurJobView,
    requested: PodExecutionIdentityView,
) -> Result<PodExecutionIdentityView, StatusView> {
    match owner.status {
        None => Err(
            refusal(Code::FailedPrecondition, "owning SpurJob has no durable status"@),
        ),
        Some(status) => if !describes_execution(status, requested) {
            Err(
                refusal(
                    Code::FailedPrecondition,
                    "owning SpurJob does not bind the requested execution"@,
                ),
            )
        } else {
            Ok(
                PodExecutionIdentityView {
                    submission_token: status.submission_token->0,
                    ..requested
                },
            )
        },
    }
}

/// The requested identity with the submission token that its job recorded.
pub fn hydrate_control_identity(owner: &SpurJob, requested: &PodExecutionIdentity) -> (out: Result<
    PodExecutionIdentity,
    Status,
>)
    ensures
        outcome_view(out) == hydrated_identity(owner@, requested@),
{
    let status = match &owner.status {
        None => return Err(
            Status::new(Code::FailedPrecondition, "owning SpurJob has no durable status"),
        ),
        Some(status) => status,
    };
    if !status_matches_execution(status, requested) {
        return Err(
            Status::new(
                Code::FailedPrecondition,
                "owning SpurJob does not bind the requested execution",
            ),
        );
    }
    match &status.submission_token {
        None => Err(
            Status::new(Code::FailedPrecondition, "owning SpurJob has no durable submission token"),
        ),
        Some(token) => Ok(
            PodExecutionIdentity {
                key: requested.key.copy_of(),
                worker_incarnation: requested.worker_incarnation.clone(),
                submission_token: token.clone(),
                pod_dispatch_token: requested.pod_dispatch_token.clone(),
            },
        ),
    }
}

/// The reference under which a job owns its objects.
pub open spec fn owner_reference_of(job: SpurJobView) -> Result<OwnerReferenceView, StatusView> {
    match (job.metadata.name, job.metadata.uid) {
        (None, _) => Err(refusal(Code::FailedPrecondition, "owning SpurJob has no name"@)),
        (_, None) => Err(refusal(Code::FailedPrecondition, "owning SpurJob has no UID"@)),
        (Some(name), Some(uid)) => Ok(
            OwnerReferenceView {
                api_version: "spur.amd.com/v1alpha1"@,
                kind: "SpurJob"@,
                name,
                uid,
                controller: Some(true),
                block_owner_deletion: Some(true),
            },
        ),
    }
}

/// The reference under which a job owns its objects.
pub fn owner_reference(job: &SpurJob) -> (out: Result<OwnerReference, Status>)
    ensures
        outcome_view(out) == owner_reference_of(job@),
{
    match (&job.metadata.name, &job.metadata.uid) {
        (None, _) => Err(Status::new(Code::FailedPrecondition, "owning SpurJob has no name")),
        (_, None) => Err(Status::new(Code::FailedPrecondition, "owning SpurJob has no UID")),
        (Some(name), Some(uid)) => Ok(
            OwnerReference {
                api_version: "spur.amd.com/v1alpha1".to_owned(),
                kind: "SpurJob".to_owned(),
                name: name.clone(),
                uid: uid.clone(),
                controller: Some(true),
                block_owner_deletion: Some(true),
            },
        ),
    }
}

/// The one pod that runs an execution on its worker.
pub open spec fn only_pod(
    identity: PodExecutionIdentityView,
    exact: Seq<PodView>,
) -> Result<PodView, StatusView> {
    let id = decimal(identity.key.job_id as nat);
    if exact.len() == 0 {
        Err(
            refusal(
                Code::NotFound,
                "exact execution of job "@ + id + " is not running on this virtual worker"@,
            ),
        )
    } else if exact.len() == 1 {
        Ok(exact[0])
    } else {
        Err(
            refusal(
                Code::FailedPrecondition,
                "exact execution of job "@ + id + " owns "@ + decimal(exact.len())
                    + " Pods on one virtual worker"@,
            ),
        )
    }
}

/// The one pod that runs an execution on its worker, out of those that the
/// operation may act on.
pub fn find_exact_pod(identity: &PodExecutionIdentity, exact: Vec<Pod>) -> (out: Result<Pod, Status>)
    ensures
        outcome_view(out) == only_pod(identity@, exact.deep_view()),
{
    if exact.len() == 1 {
        proof {
            assert(exact.deep_view()[0] == exact@[0]@);
        }
        return Ok(exact[0].copy_of());
    }
    let id = u32_text(identity.key.job_id);
    if exact.len() == 0 {
        Err(
            Status {
                code: Code::NotFound,
                message: join3(
                    "exact execution of job ",
                    id.as_str(),
                    " is not running on this virtual worker",
                ),
            },
        )
    } else {
        let count = u64_text(exact.len() as u64);
        let head = join3("exact execution of job ", id.as_str(), " owns ");
        Err(
            Status {
                code: Code::FailedPrecondition,
                message: join3(head.as_str(), count.as_str(), " Pods on one virtual worker"),
            },
        )
    }
}

/// Whether the controlling owner of `meta` is the job with this UID.
pub open spec fn has_controller(meta: ObjectMetaView, uid: Seq<char>) -> bool {
    meta.owner_references is Some && exists|i: int|
        #![trigger (meta.owner_references->0)[i]]
        0 <= i < (meta.owner_references->0).len() && (meta.owner_references->0)[i].uid == uid
            && (meta.owner_references->0)[i].controller == Some(true)
}

/// A pod that a control operation acts on is the one the job recorded: its UID
/// and its dispatch token stand in the job's status under its name, the job is
/// its controller, and it says itself that it was recorded, for the job, the
/// submission, the attempt and the worker that were asked for.
pub proof fn law_controlled_pod_is_the_recorded_one(
    status: SpurJobStatusView,
    owner_uid: Seq<char>,
    requested: PodExecutionIdentityView,
    meta: ObjectMetaView,
)
    requires
        binds_control_pod(status, owner_uid, requested, meta),
    ensures
        has_controller(meta, owner_uid),
        meta.name is Some && meta.uid is Some && meta.annotations is Some,
        status.pod_uids.contains_key(meta.name->0),
        status.pod_uids[meta.name->0] == meta.uid->0,
        (meta.annotations->0).contains_key(PROVENANCE_RECORDED_ANNOTATION@),
        (meta.annotations->0)[PROVENANCE_RECORDED_ANNOTATION@] == "true"@,
        (meta.annotations->0).contains_key(POD_DISPATCH_TOKEN_ANNOTATION@),
        (meta.annotations->0)[POD_DISPATCH_TOKEN_ANNOTATION@].len() > 0,
        status.pod_dispatch_tokens.contains_key(meta.name->0),
        status.pod_dispatch_tokens[meta.name->0]
            == (meta.annotations->0)[POD_DISPATCH_TOKEN_ANNOTATION@],
        (meta.annotations->0)[SUBMISSION_GENERATION_ANNOTATION@]
            == requested.key.submission_generation,
        (meta.annotations->0)[WORKER_INCARNATION_ANNOTATION@] == requested.worker_incarnation,
        status.spur_job_id == Some(requested.key.job_id),
        status.submission_generation == Some(requested.key.submission_generation),
        status.submission_token is Some && (status.submission_token->0).len() > 0,
        (meta.annotations->0)[SUBMISSION_TOKEN_ANNOTATION@] == status.submission_token->0,
{
}

/// The recorded pod of an execution is one that a control operation acts on.
pub proof fn law_recorded_pod_answers_to_its_job(
    status: SpurJobStatusView,
    owner_uid: Seq<char>,
    requested: PodExecutionIdentityView,
    meta: ObjectMetaView,
)
    requires
        status.spur_job_id == Some(requested.key.job_id),
        status.submission_generation == Some(requested.key.submission_generation),
        status.submission_token is Some && (status.submission_token->0).len() > 0,
        has_controller(meta, owner_uid),
        meta.name is Some && meta.uid is Some && meta.annotations is Some,
        (meta.annotations->0).contains_key(PROVENANCE_RECORDED_ANNOTATION@),
        (meta.annotations->0)[PROVENANCE_RECORDED_ANNOTATION@] == "true"@,
        carried_identity(meta) is Ok,
        (carried_identity(meta)->Ok_0).key == requested.key,
        (carried_identity(meta)->Ok_0).worker_incarnation == requested.worker_incarnation,
        (carried_identity(meta)->Ok_0).submission_token == status.submission_token->0,
        (carried_identity(meta)->Ok_0).pod_dispatch_token.len() > 0,
        status.pod_dispatch_tokens.contains_key(meta.name->0),
        status.pod_dispatch_tokens[meta.name->0] == (
        carried_identity(meta)->Ok_0).pod_dispatch_token,
        status.pod_uids.contains_key(meta.name->0),
        status.pod_uids[meta.name->0] == meta.uid->0,
    ensures
        binds_control_pod(status, owner_uid, requested, meta),
{
}

/// A pod that cleanup removes carries the token that the job recorded under its
/// name, and no other UID stands there.
pub proof fn law_cleaned_pod_was_dispatched_by_the_job(
    status: SpurJobStatusView,
    owner_uid: Seq<char>,
    requested: PodExecutionIdentityView,
    meta: ObjectMetaView,
)
    requires
        binds_cleanup_pod(status, owner_uid, requested, meta),
    ensures
        has_controller(meta, owner_uid),
        meta.name is Some && meta.uid is Some && meta.annotations is Some,
        status.pod_uids.contains_key(meta.name->0) ==> status.pod_uids[meta.name->0]
            == meta.uid->0,
        (meta.annotations->0)[POD_DISPATCH_TOKEN_ANNOTATION@].len() > 0,
        status.pod_dispatch_tokens.contains_key(meta.name->0),
        status.pod_dispatch_tokens[meta.name->0]
            == (meta.annotations->0)[POD_DISPATCH_TOKEN_ANNOTATION@],
        (meta.annotations->0)[SUBMISSION_GENERATION_ANNOTATION@]
            == requested.key.submission_generation,
        (meta.annotations->0)[WORKER_INCARNATION_ANNOTATION@] == requested.worker_incarnation,
        status.spur_job_id == Some(requested.key.job_id),
        status.submission_generation == Some(requested.key.submission_generation),
        status.submission_token is Some && (status.submission_token->0).len() > 0,
        (meta.annotations->0)[SUBMISSION_TOKEN_ANNOTATION@] == status.submission_token->0,
{
}

/// A pod whose creation was not yet recorded is cleaned up by its token alone:
/// taking its UID out of the record keeps it in reach of cleanup, and puts it
/// out of reach of control.
pub proof fn law_unrecorded_pod_is_left_to_cleanup(
    status: SpurJobStatusView,
    owner_uid: Seq<char>,
    requested: PodExecutionIdentityView,
    meta: ObjectMetaView,
)
    requires
        binds_control_pod(status, owner_uid, requested, meta),
    ensures
        ({
            let before = SpurJobStatusView {
                pod_uids: status.pod_uids.remove(meta.name->0),
                ..status
            };
            &&& binds_cleanup_pod(before, owner_uid, requested, meta)
            &&& !binds_control_pod(before, owner_uid, requested, meta)
        }),
{
}

/// The service that a control operation acts on is the one the job recorded
/// under its name, is controlled by the job, and names the execution.
pub proof fn law_controlled_service_is_the_recorded_one(
    status: SpurJobStatusView,
    owner_uid: Seq<char>,
    identity: PodExecutionIdentityView,
    service: ServiceView,
)
    requires
        binds_control_service(status, owner_uid, identity, service),
    ensures
        has_controller(service.metadata, owner_uid),
        service.metadata.name is Some && service.metadata.uid is Some,
        status.service_uids.contains_key(service.metadata.name->0),
        status.service_uids[service.metadata.name->0] == service.metadata.uid->0,
        status.spur_job_id == Some(identity.key.job_id),
        status.submission_generation == Some(identity.key.submission_generation),
        service.metadata.annotations is Some && service.metadata.labels is Some,
        (service.metadata.labels->0)[JOB_ID_LABEL@] == decimal(identity.key.job_id as nat),
        (service.metadata.annotations->0)[SUBMISSION_GENERATION_ANNOTATION@]
            == identity.key.submission_generation,
        (service.metadata.annotations->0)[RUN_ATTEMPT_ANNOTATION@]
            == decimal(identity.key.run_attempt as nat),
        (service.metadata.annotations->0)[SUBMISSION_TOKEN_ANNOTATION@]
            == identity.submission_token,
{
}

/// The service that cleanup removes carries the token that the job recorded
/// under its name, and no other UID stands there.
pub proof fn law_cleaned_service_was_dispatched_by_the_job(
    status: SpurJobStatusView,
    owner_uid: Seq<char>,
    identity: PodExecutionIdentityView,
    service: ServiceView,
)
    requires
        binds_cleanup_service(status, owner_uid, identity, service),
    ensures
        has_controller(service.metadata, owner_uid),
        service.metadata.name is Some && service.metadata.uid is Some,
        service.metadata.annotations is Some,
        (service.metadata.annotations->0).contains_key(SERVICE_DISPATCH_TOKEN_ANNOTATION@),
        status.service_dispatch_tokens.contains_key(service.metadata.name->0),
        status.service_dispatch_tokens[service.metadata.name->0]
            == (service.metadata.annotations->0)[SERVICE_DISPATCH_TOKEN_ANNOTATION@],
        status.service_uids.contains_key(service.metadata.name->0)
            ==> status.service_uids[service.metadata.name->0] == service.metadata.uid->0,
        status.spur_job_id == Some(identity.key.job_id),
        (service.metadata.annotations->0)[SUBMISSION_TOKEN_ANNOTATION@]
            == identity.submission_token,
{
}

/// The same service is cleaned up when its creation was not yet recorded, as
/// long as its dispatch token was, and is then out of reach of control.
pub proof fn law_unrecorded_service_is_left_to_cleanup(
    status: SpurJobStatusView,
    owner_uid: Seq<char>,
    identity: PodExecutionIdentityView,
    service: ServiceView,
)
    requires
        binds_control_service(status, owner_uid, identity, service),
        (service.metadata.annotations->0).contains_key(SERVICE_DISPATCH_TOKEN_ANNOTATION@),
        status.service_dispatch_tokens.contains_key(service.metadata.name->0),
        status.service_dispatch_tokens[service.metadata.name->0]
            == (service.metadata.annotations->0)[SERVICE_DISPATCH_TOKEN_ANNOTATION@],
    ensures
        ({
            let before = SpurJobStatusView {
                service_uids: status.service_uids.remove(service.metadata.name->0),
                ..status
            };
            &&& binds_cleanup_service(status, owner_uid, identity, service)
            &&& binds_cleanup_service(before, owner_uid, identity, service)
            &&& !binds_control_service(before, owner_uid, identity, service)
        }),
{
}

/// Classifying goes through every item: one to keep is kept, one to skip is not,
/// and the first that is unsafe refuses the whole operation.
pub proof fn lemma_classified_members<A>(items: Seq<A>, verdict: spec_fn(A) -> Verdict)
    ensures
        classified(items, verdict) matches Ok(kept) ==> kept.len() <= items.len() && (forall|i: int|
            0 <= i < items.len() ==> verdict(#[trigger] items[i]) is Keep || verdict(
                items[i],
            ) is Skip) && (forall|i: int|
            0 <= i < items.len() && verdict(#[trigger] items[i]) is Keep ==> kept.contains(
                items[i],
            )) && (forall|j: int|
            0 <= j < kept.len() ==> verdict(#[trigger] kept[j]) is Keep && items.contains(kept[j])),
        classified(items, verdict) is Ok <==> (forall|i: int|
            0 <= i < items.len() ==> !(verdict(#[trigger] items[i]) is Refuse)),
    decreases items.len(),
{
    if items.len() > 0 {
        let init = items.drop_last();
        lemma_classified_members(init, verdict);
        assert(verdict(items.last()) is Keep || verdict(items.last()) is Skip || verdict(
            items.last(),
        ) is Refuse);
        match classified(init, verdict) {
            Ok(kept) => {
                assert forall|i: int| 0 <= i < init.len() implies #[trigger] items[i]
                    == init[i] by {};
                match verdict(items.last()) {
                    Verdict::Skip => {
                        assert forall|j: int| 0 <= j < kept.len() implies items.contains(
                            #[trigger] kept[j],
                        ) by {
                            let i = choose|i: int| 0 <= i < init.len() && init[i] == kept[j];
                            assert(items[i] == kept[j]);
                        }
                        assert forall|i: int|
                            0 <= i < items.len() && verdict(#[trigger] items[i]) is Keep implies kept.contains(
                            items[i],
                        ) by {
                            assert(init[i] == items[i]);
                        }
                    },
                    Verdict::Keep => {
                        let all = kept.push(items.last());
                        assert forall|j: int| 0 <= j < all.len() implies verdict(
                            #[trigger] all[j],
                        ) is Keep && items.contains(all[j]) by {
                            if j < kept.len() {
                                assert(all[j] == kept[j]);
                                let i = choose|i: int| 0 <= i < init.len() && init[i] == kept[j];
                                assert(items[i] == kept[j]);
                            } else {
                                assert(items[items.len() - 1] == all[j]);
                            }
                        }
                        assert forall|i: int|
                            0 <= i < items.len() && verdict(#[trigger] items[i]) is Keep implies all.contains(
                            items[i],
                        ) by {
                            if i < init.len() {
                                assert(init[i] == items[i]);
                                let j = choose|j: int| 0 <= j < kept.len() && kept[j] == init[i];
                                assert(all[j] == items[i]);
                            } else {
                                assert(all[kept.len() as int] == items[i]);
                            }
                        }
                    },
                    Verdict::Refuse(_) => {
                        assert(items[items.len() - 1] == items.last());
                    },
                }
            },
            Err(_) => {
                let i = choose|i: int|
                    0 <= i < init.len() && verdict(#[trigger] init[i]) is Refuse;
                assert(items[i] == init[i]);
            },
        }
    }
}

/// An operation on an execution finds every pod of the job that carries the
/// execution, and no pod of another execution or of another owner.
pub proof fn law_every_pod_of_the_execution_is_found(
    status: SpurJobStatusView,
    owner_uid: Seq<char>,
    requested: PodExecutionIdentityView,
    pods: Seq<PodView>,
    allow_cleanup_recovery: bool,
    i: int,
)
    requires
        0 <= i < pods.len(),
        control_pods(status, owner_uid, requested, pods, allow_cleanup_recovery) is Ok,
    ensures
        ({
            let kept = control_pods(
                status,
                owner_uid,
                requested,
                pods,
                allow_cleanup_recovery,
            )->Ok_0;
            let carried = carried_identity(pods[i].metadata);
            let is_its = has_controller(pods[i].metadata, owner_uid) && carried is Ok && (
            carried->Ok_0).key == requested.key && (carried->Ok_0).worker_incarnation
                == requested.worker_incarnation;
            kept.contains(pods[i]) <==> is_its
        }),
{
    let verdict = |pod: PodView|
        pod_verdict(status, owner_uid, requested, pod, allow_cleanup_recovery);
    lemma_classified_members(pods, verdict);
    let kept = classified(pods, verdict)->Ok_0;
    assert(verdict(pods[i]) is Keep || verdict(pods[i]) is Skip);
    if kept.contains(pods[i]) {
        let j = choose|j: int| 0 <= j < kept.len() && kept[j] == pods[i];
        assert(verdict(kept[j]) is Keep);
    }
}

/// A job's pod that cannot be told apart, or that claims the execution without
/// being recorded, makes the whole operation fail. A pod of another owner never
/// does.
pub proof fn law_unprovable_pod_stops_the_operation(
    status: SpurJobStatusView,
    owner_uid: Seq<char>,
    requested: PodExecutionIdentityView,
    pods: Seq<PodView>,
    allow_cleanup_recovery: bool,
    i: int,
)
    requires
        0 <= i < pods.len(),
        has_controller(pods[i].metadata, owner_uid),
        carried_identity(pods[i].metadata) is Err || {
            let carried = carried_identity(pods[i].metadata)->Ok_0;
            &&& carried.key == requested.key
            &&& carried.worker_incarnation == requested.worker_incarnation
            &&& !binds_control_pod(status, owner_uid, requested, pods[i].metadata)
            &&& !binds_cleanup_pod(status, owner_uid, requested, pods[i].metadata)
        },
    ensures
        control_pods(status, owner_uid, requested, pods, allow_cleanup_recovery) is Err,
{
    let verdict = |pod: PodView|
        pod_verdict(status, owner_uid, requested, pod, allow_cleanup_recovery);
    lemma_classified_members(pods, verdict);
    assert(verdict(pods[i]) is Refuse);
}

/// Without recovery, a pod whose UID the job has not recorded stops the
/// operation; with recovery it is found by its token.
pub proof fn law_recovery_reaches_unrecorded_pods(
    status: SpurJobStatusView,
    owner_uid: Seq<char>,
    requested: PodExecutionIdentityView,
    pod: PodView,
)
    requires
        binds_cleanup_pod(status, owner_uid, requested, pod.metadata),
        !status.pod_uids.contains_key(pod.metadata.name->0),
    ensures
        control_pods(status, owner_uid, requested, seq![pod], true) == Ok::<
            Seq<PodView>,
            Seq<char>,
        >(seq![pod]),
        control_pods(status, owner_uid, requested, seq![pod], false) is Err,
{
    let one = seq![pod];
    assert(one.drop_last() =~= Seq::<PodView>::empty());
    reveal_with_fuel(classified, 2);
    assert(Seq::<PodView>::empty().push(pod) =~= one);
}

/// What a service says of its execution is read off its annotations: it claims
/// exactly the submission and the attempt that are written there.
pub proof fn law_service_claims_what_it_carries(
    service: ServiceView,
    identity: PodExecutionIdentityView,
    attempt: u32,
)
    requires
        service.metadata.annotations is Some,
        (service.metadata.annotations->0).contains_key(SUBMISSION_GENERATION_ANNOTATION@),
        (service.metadata.annotations->0).contains_key(RUN_ATTEMPT_ANNOTATION@),
        (service.metadata.annotations->0)[RUN_ATTEMPT_ANNOTATION@] == decimal(attempt as nat),
    ensures
        claims_execution(service, identity) == Some(
            (service.metadata.annotations->0)[SUBMISSION_GENERATION_ANNOTATION@]
                == identity.key.submission_generation && attempt == identity.key.run_attempt,
        ),
{
    law_decimal_round_trip(attempt as nat, u32::MAX as nat);
}

/// An operation on an execution finds a job's service exactly where the service
/// claims the execution.
pub proof fn law_every_service_of_the_execution_is_found(
    status: SpurJobStatusView,
    owner_uid: Seq<char>,
    identity: PodExecutionIdentityView,
    services: Seq<ServiceView>,
    allow_cleanup_recovery: bool,
    i: int,
)
    requires
        0 <= i < services.len(),
        control_services(status, owner_uid, identity, services, allow_cleanup_recovery) is Ok,
    ensures
        (control_services(status, owner_uid, identity, services, allow_cleanup_recovery)->Ok_0).contains(
            services[i],
        ) <==> has_controller(services[i].metadata, owner_uid) && claims_execution(
            services[i],
            identity,
        ) == Some(true),
{
    let verdict = |service: ServiceView|
        service_verdict(status, owner_uid, identity, service, allow_cleanup_recovery);
    lemma_classified_members(services, verdict);
    let kept = classified(services, verdict)->Ok_0;
    assert(verdict(services[i]) is Keep || verdict(services[i]) is Skip);
    if kept.contains(services[i]) {
        let j = choose|j: int| 0 <= j < kept.len() && kept[j] == services[i];
        assert(verdict(kept[j]) is Keep);
    }
}

/// The job that a request resolves to has the identity asked for in its status
/// and on its label. A request that names no submission token is not told apart
/// by it; any other is.
pub proof fn law_exact_job_is_the_one_asked_for(
    identity: PodExecutionIdentityView,
    job: SpurJobView,
)
    requires
        job_is_exact(identity, job),
    ensures
        job.status is Some && job.metadata.labels is Some,
        (job.status->0).spur_job_id == Some(identity.key.job_id),
        (job.status->0).submission_generation == Some(identity.key.submission_generation),
        (job.metadata.labels->0).contains_key(SUBMISSION_GENERATION_LABEL@),
        (job.metadata.labels->0)[SUBMISSION_GENERATION_LABEL@]
            == identity.key.submission_generation,
        (job.status->0).submission_token is Some,
        ((job.status->0).submission_token->0).len() > 0,
        identity.submission_token.len() > 0 ==> (job.status->0).submission_token->0
            == identity.submission_token,
        job_is_exact(
            PodExecutionIdentityView { submission_token: Seq::empty(), ..identity },
            job,
        ),
{
}

/// The jobs that fit an identity are counted one by one: none are counted where
/// none fits, and more than one where two places in the list fit.
pub proof fn law_exact_jobs_are_counted(
    identity: PodExecutionIdentityView,
    jobs: Seq<SpurJobView>,
)
    ensures
        exact_job_count(identity, jobs) == 0 <==> (forall|i: int|
            0 <= i < jobs.len() ==> !job_is_exact(identity, #[trigger] jobs[i])),
        exact_job_count(identity, jobs) <= jobs.len(),
        forall|i: int, j: int|
            0 <= i < j < jobs.len() && job_is_exact(identity, #[trigger] jobs[i]) && job_is_exact(
                identity,
                #[trigger] jobs[j],
            ) ==> exact_job_count(identity, jobs) > 1,
        exact_job_count(identity, jobs) > 1 ==> exists|i: int, j: int|
            0 <= i < j < jobs.len() && job_is_exact(identity, #[trigger] jobs[i]) && job_is_exact(
                identity,
                #[trigger] jobs[j],
            ),
    decreases jobs.len(),
{
    if jobs.len() > 0 {
        let init = jobs.drop_last();
        law_exact_jobs_are_counted(identity, init);
        assert forall|i: int| 0 <= i < init.len() implies #[trigger] jobs[i] == init[i] by {};
        assert(jobs[jobs.len() - 1] == jobs.last());
        if exact_job_count(identity, init) == 0 {
            assert forall|i: int| 0 <= i < init.len() implies !job_is_exact(
                identity,
                #[trigger] jobs[i],
            ) by {
                assert(!job_is_exact(identity, init[i]));
            }
        } else {
            let i = choose|i: int|
                0 <= i < init.len() && job_is_exact(identity, #[trigger] init[i]);
            assert(jobs[i] == init[i]);
            if exact_job_count(identity, init) > 1 {
                let (a, b) = choose|a: int, b: int|
                    0 <= a < b < init.len() && job_is_exact(identity, #[trigger] init[a])
                        && job_is_exact(identity, #[trigger] init[b]);
                assert(jobs[a] == init[a] && jobs[b] == init[b]);
            }
        }
        assert forall|a: int, b: int|
            0 <= a < b < jobs.len() && job_is_exact(identity, #[trigger] jobs[a]) && job_is_exact(
                identity,
                #[trigger] jobs[b],
            ) implies exact_job_count(identity, jobs) > 1 by {
            assert(init[a] == jobs[a]);
            if b < init.len() {
                assert(init[b] == jobs[b]);
            }
        }
    }
}

/// The identity that an operation goes on with is the one that was asked for,
/// with the submission token that its job recorded.
pub proof fn law_hydrated_identity_has_the_recorded_token(
    owner: SpurJobView,
    requested: PodExecutionIdentityView,
)
    ensures
        hydrated_identity(owner, requested) matches Ok(found) ==> {
            &&& found.key == requested.key
            &&& found.worker_incarnation == requested.worker_incarnation
            &&& found.pod_dispatch_token == requested.pod_dispatch_token
            &&& owner.status is Some
            &&& (owner.status->0).submission_token == Some(found.submission_token)
            &&& found.submission_token.len() > 0
            &&& (owner.status->0).spur_job_id == Some(requested.key.job_id)
            &&& (owner.status->0).submission_generation == Some(
                requested.key.submission_generation,
            )
        },
        job_is_exact(requested, owner) ==> hydrated_identity(owner, requested) is Ok,
{
}

/// An object that was given the owner reference of a job is controlled by that
/// job, and blocks the job's deletion.
pub proof fn law_owner_reference_makes_the_owner(job: SpurJobView, meta: ObjectMetaView)
    requires
        owner_reference_of(job) is Ok,
        meta.owner_references == Some(seq![owner_reference_of(job)->Ok_0]),
    ensures
        job.metadata.uid is Some,
        controlled_by(meta, job.metadata.uid->0),
        forall|uid: Seq<char>| controlled_by(meta, uid) ==> job.metadata.uid == Some(uid),
        job.metadata.name == Some((owner_reference_of(job)->Ok_0).name),
        (owner_reference_of(job)->Ok_0).kind == "SpurJob"@,
        (owner_reference_of(job)->Ok_0).api_version == "spur.amd.com/v1alpha1"@,
        (owner_reference_of(job)->Ok_0).block_owner_deletion == Some(true),
{
    let owners = meta.owner_references->0;
    assert(owners[0] == owner_reference_of(job)->Ok_0);
}

/// Ownership is told by the controlling reference alone: a reference that does
/// not control, and one to another object, give none.
pub proof fn law_only_controllers_own(meta: ObjectMetaView, owner_uid: Seq<char>)
    ensures
        controlled_by(meta, owner_uid) <==> has_controller(meta, owner_uid),
        meta.owner_references is None ==> !controlled_by(meta, owner_uid),
{
    if controlled_by(meta, owner_uid) {
        let owners = meta.owner_references->0;
        let i = choose|i: int|
            0 <= i < owners.len() && (#[trigger] owners[i]).uid == owner_uid && owners[i].controller
                == Some(true);
        assert((meta.owner_references->0)[i].uid == owner_uid);
    }
}

/// The pod of an execution is given where there is one and no second.
pub proof fn law_the_one_pod_is_given(
    identity: PodExecutionIdentityView,
    exact: Seq<PodView>,
)
    ensures
        only_pod(identity, exact) is Ok <==> exact.len() == 1,
        only_pod(identity, exact) matches Ok(pod) ==> exact =~= seq![pod],
        exact.len() == 0 ==> (only_pod(identity, exact)->Err_0).code == Code::NotFound,
        exact.len() > 1 ==> (only_pod(identity, exact)->Err_0).code == Code::FailedPrecondition,
{
}

} // verus!
