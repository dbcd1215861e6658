//! Ending an execution: finding its objects, removing them by UID, and reporting
//! success only once none is left.

use vstd::prelude::*;
use crate::control::{
    binds_cleanup_pod, binds_cleanup_service, binds_control_service, classify_control_pods,
    classify_control_services, control_pods, control_services, hydrate_control_identity,
    hydrated_identity, law_controlled_pods_are_bound, law_controlled_services_are_bound, list_view,
};
use crate::crd::{SpurJob, SpurJobStatusView, SpurJobView};
use crate::execution_identity::{
    requested_identity, PodExecutionIdentity, PodExecutionIdentityView, JOB_ID_LABEL,
};
use crate::k8s::{ObjectMeta, ObjectMetaView, Pod, PodView, Service, ServiceView};
use crate::plain::Plain;
use crate::status::{outcome_view, refusal, Code, Status, StatusView};
use crate::text::{decimal, join2, join3, law_decimal_injective, u32_text};

verus! {

/// How long each stage of a termination may take, in seconds.
pub const TERMINATION_BUDGET_SECS: u64 = 30;

/// How long to wait between two looks at what is left, in milliseconds.
pub const TERMINATION_POLL_MILLIS: u64 = 100;

/// The selector of the objects that belong to a job ID.
pub open spec fn selector_of_job(job_id: u32) -> Seq<char> {
    JOB_ID_LABEL@ + "="@ + decimal(job_id as nat)
}

/// The selector of the objects that belong to a job ID.
pub fn job_selector(job_id: u32) -> (out: String)
    ensures
        out@ == selector_of_job(job_id),
{
    let id = u32_text(job_id);
    join3(JOB_ID_LABEL, "=", id.as_str())
}

/// Where the objects of a job are looked for.
pub open spec fn namespace_of_owner(owner: SpurJobView) -> Result<Seq<char>, StatusView> {
    match (owner.metadata.namespace, owner.metadata.uid, owner.status) {
        (None, _, _) => Err(refusal(Code::FailedPrecondition, "owning SpurJob has no namespace"@)),
        (_, None, _) => Err(refusal(Code::FailedPrecondition, "owning SpurJob has no UID"@)),
        (_, _, None) => Err(
            refusal(Code::FailedPrecondition, "owning SpurJob has no durable status"@),
        ),
        (Some(namespace), Some(_), Some(_)) => Ok(namespace),
    }
}

/// Where the objects of a job are looked for.
pub fn owner_namespace(owner: &SpurJob) -> (out: Result<String, Status>)
    ensures
        outcome_view(out) == namespace_of_owner(owner@),
{
    match (&owner.metadata.namespace, &owner.metadata.uid, &owner.status) {
        (None, _, _) => Err(
            Status::new(Code::FailedPrecondition, "owning SpurJob has no namespace"),
        ),
        (_, None, _) => Err(Status::new(Code::FailedPrecondition, "owning SpurJob has no UID")),
        (_, _, None) => Err(
            Status::new(Code::FailedPrecondition, "owning SpurJob has no durable status"),
        ),
        (Some(namespace), Some(_), Some(_)) => Ok(namespace.clone()),
    }
}

/// The objects of a list, or the refusal.
pub open spec fn objects_view<T: DeepView>(outcome: Result<Vec<T>, Status>) -> Result<
    Seq<T::V>,
    StatusView,
> {
    match outcome {
        Ok(items) => Ok(items.deep_view()),
        Err(status) => Err(status@),
    }
}

/// The pods of an execution, among those listed for its job ID.
pub open spec fn exact_pods(
    owner: SpurJobView,
    identity: PodExecutionIdentityView,
    listed: Result<Seq<PodView>, Seq<char>>,
    allow_cleanup_recovery: bool,
) -> Result<Seq<PodView>, StatusView> {
    match (namespace_of_owner(owner), listed) {
        (Err(status), _) => Err(status),
        (_, Err(error)) => Err(
            refusal(Code::Internal, "failed to list exact job Pods: "@ + error),
        ),
        (Ok(_), Ok(pods)) => match control_pods(
            owner.status->0,
            owner.metadata.uid->0,
            identity,
            pods,
            allow_cleanup_recovery,
        ) {
            Ok(kept) => Ok(kept),
            Err(reason) => Err(refusal(Code::FailedPrecondition, reason)),
        },
    }
}

/// The pods of an execution, among those listed for its job ID.
pub fn list_exact_pods(
    owner: &SpurJob,
    identity: &PodExecutionIdentity,
    listed: Result<Vec<Pod>, String>,
    allow_cleanup_recovery: bool,
) -> (out: Result<Vec<Pod>, Status>)
    ensures
        objects_view(out) == exact_pods(
            owner@,
            identity@,
            list_view(listed),
            allow_cleanup_recovery,
        ),
{
    if let Err(status) = owner_namespace(owner) {
        return Err(status);
    }
    let pods = match listed {
        Err(error) => return Err(
            Status {
                code: Code::Internal,
                message: join2("failed to list exact job Pods: ", error.as_str()),
            },
        ),
        Ok(pods) => pods,
    };
    match (&owner.metadata.uid, &owner.status) {
        (Some(owner_uid), Some(status)) => match classify_control_pods(
            status,
            owner_uid.as_str(),
            identity,
            pods,
            allow_cleanup_recovery,
        ) {
            Ok(kept) => Ok(kept),
            Err(message) => Err(Status { code: Code::FailedPrecondition, message }),
        },
        _ => Err(Status::new(Code::FailedPrecondition, "owning SpurJob has no durable status")),
    }
}

/// The services of an execution, among those listed for its job ID.
pub open spec fn exact_services(
    owner: SpurJobView,
    identity: PodExecutionIdentityView,
    listed: Result<Seq<ServiceView>, Seq<char>>,
) -> Result<Seq<ServiceView>, StatusView> {
    match (hydrated_identity(owner, identity), namespace_of_owner(owner), listed) {
        (Err(status), _, _) => Err(status),
        (_, Err(status), _) => Err(status),
        (_, _, Err(error)) => Err(
            refusal(Code::Internal, "failed to list job Services: "@ + error),
        ),
        (Ok(exact), Ok(_), Ok(services)) => match control_services(
            owner.status->0,
            owner.metadata.uid->0,
            exact,
            services,
            true,
        ) {
            Ok(kept) => Ok(kept),
            Err(reason) => Err(refusal(Code::FailedPrecondition, reason)),
        },
    }
}

/// The services of an execution, among those listed for its job ID.
pub fn list_exact_services(
    owner: &SpurJob,
    identity: &PodExecutionIdentity,
    listed: Result<Vec<Service>, String>,
) -> (out: Result<Vec<Service>, Status>)
    ensures
        objects_view(out) == exact_services(owner@, identity@, list_view(listed)),
{
    let exact = match hydrate_control_identity(owner, identity) {
        Err(status) => return Err(status),
        Ok(exact) => exact,
    };
    if let Err(status) = owner_namespace(owner) {
        return Err(status);
    }
    let services = match listed {
        Err(error) => return Err(
            Status {
                code: Code::Internal,
                message: join2("failed to list job Services: ", error.as_str()),
            },
        ),
        Ok(services) => services,
    };
    match (&owner.metadata.uid, &owner.status) {
        (Some(owner_uid), Some(status)) => match classify_control_services(
            status,
            owner_uid.as_str(),
            &exact,
            services,
            true,
        ) {
            Ok(kept) => Ok(kept),
            Err(message) => Err(Status { code: Code::FailedPrecondition, message }),
        },
        _ => Err(Status::new(Code::FailedPrecondition, "owning SpurJob has no durable status")),
    }
}

/// What is being removed.
#[derive(Clone, Copy, Debug, PartialEq, Eq, Structural)]
pub enum Stage {
    /// The pods of the execution.
    Pods,
    /// Its services, once no pod is left.
    Services,
}

/// The removal of one object, if it still has this UID.
#[derive(Clone, Debug, Default)]
pub struct Removal {
    pub namespace: String,
    pub name: String,
    pub uid: String,
    /// How long the object is given to end; the default for its kind where unset.
    pub grace_period_seconds: Option<u32>,
}

/// What a [`Removal`] holds.
#[verifier::ext_equal]
pub struct RemovalView {
    pub namespace: Seq<char>,
    pub name: Seq<char>,
    pub uid: Seq<char>,
    pub grace_period_seconds: Option<u32>,
}

impl View for Removal {
    type V = RemovalView;

    open spec fn view(&self) -> RemovalView {
        RemovalView {
            namespace: self.namespace.deep_view(),
            name: self.name.deep_view(),
            uid: self.uid.deep_view(),
            grace_period_seconds: self.grace_period_seconds.deep_view(),
        }
    }
}

impl DeepView for Removal {
    type V = RemovalView;

    open spec fn deep_view(&self) -> RemovalView {
        self@
    }
}

impl Plain for Removal {
    fn equals(&self, other: &Self) -> (same: bool) {
        self.namespace.equals(&other.namespace)
            && self.name.equals(&other.name)
            && self.uid.equals(&other.uid)
            && self.grace_period_seconds.equals(&other.grace_period_seconds)
    }

    fn copy_of(&self) -> (out: Self) {
        Removal {
            namespace: self.namespace.copy_of(),
            name: self.name.copy_of(),
            uid: self.uid.copy_of(),
            grace_period_seconds: self.grace_period_seconds.copy_of(),
        }
    }
}

/// Which execution a request is about.
#[derive(Clone, Debug, Default)]
pub struct ExecutionRequest {
    pub job_id: u32,
    pub submission_generation: String,
    pub run_attempt: u32,
    pub worker_incarnation: String,
}

/// What an [`ExecutionRequest`] holds.
#[verifier::ext_equal]
pub struct ExecutionRequestView {
    pub job_id: u32,
    pub submission_generation: Seq<char>,
    pub run_attempt: u32,
    pub worker_incarnation: Seq<char>,
}

impl View for ExecutionRequest {
    type V = ExecutionRequestView;

    open spec fn view(&self) -> ExecutionRequestView {
        ExecutionRequestView {
            job_id: self.job_id.deep_view(),
            submission_generation: self.submission_generation.deep_view(),
            run_attempt: self.run_attempt.deep_view(),
            worker_incarnation: self.worker_incarnation.deep_view(),
        }
    }
}

impl DeepView for ExecutionRequest {
    type V = ExecutionRequestView;

    open spec fn deep_view(&self) -> ExecutionRequestView {
        self@
    }
}

impl Plain for ExecutionRequest {
    fn equals(&self, other: &Self) -> (same: bool) {
        self.job_id.equals(&other.job_id)
            && self.submission_generation.equals(&other.submission_generation)
            && self.run_attempt.equals(&other.run_attempt)
            && self.worker_incarnation.equals(&other.worker_incarnation)
    }

    fn copy_of(&self) -> (out: Self) {
        ExecutionRequest {
            job_id: self.job_id.copy_of(),
            submission_generation: self.submission_generation.copy_of(),
            run_attempt: self.run_attempt.copy_of(),
            worker_incarnation: self.worker_incarnation.copy_of(),
        }
    }
}

/// The removal of an object.
pub open spec fn removal_of(stage: Stage, meta: ObjectMetaView) -> Result<RemovalView, StatusView> {
    match (meta.namespace, meta.name, meta.uid) {
        (None, _, _) => Err(
            refusal(
                Code::Internal,
                if stage is Pods {
                    "exact Pod has no namespace"@
                } else {
                    "exact Service has no namespace"@
                },
            ),
        ),
        (_, None, _) => Err(
            refusal(
                Code::Internal,
                if stage is Pods {
                    "exact Pod has no name"@
                } else {
                    "exact Service has no name"@
                },
            ),
        ),
        (_, _, None) => Err(
            refusal(
                Code::Internal,
                if stage is Pods {
                    "exact Pod has no UID"@
                } else {
                    "exact Service has no UID"@
                },
            ),
        ),
        (Some(namespace), Some(name), Some(uid)) => Ok(
            RemovalView {
                namespace,
                name,
                uid,
                grace_period_seconds: if stage is Pods {
                    Some(0)
                } else {
                    None
                },
            },
        ),
    }
}

fn remove(stage: Stage, meta: &ObjectMeta) -> (out: Result<Removal, Status>)
    ensures
        outcome_view(out) == removal_of(stage, meta@),
{
    let pods = matches!(stage, Stage::Pods);
    match (&meta.namespace, &meta.name, &meta.uid) {
        (None, _, _) => Err(
            Status::new(
                Code::Internal,
                if pods {
                    "exact Pod has no namespace"
                } else {
                    "exact Service has no namespace"
                },
            ),
        ),
        (_, None, _) => Err(
            Status::new(
                Code::Internal,
                if pods {
                    "exact Pod has no name"
                } else {
                    "exact Service has no name"
                },
            ),
        ),
        (_, _, None) => Err(
            Status::new(
                Code::Internal,
                if pods {
                    "exact Pod has no UID"
                } else {
                    "exact Service has no UID"
                },
            ),
        ),
        (Some(namespace), Some(name), Some(uid)) => Ok(
            Removal {
                namespace: namespace.clone(),
                name: name.clone(),
                uid: uid.clone(),
                grace_period_seconds: if pods {
                    Some(0)
                } else {
                    None
                },
            },
        ),
    }
}

/// The removals to make in one round, in order, and what stops it after them.
#[derive(Debug)]
pub struct Round {
    pub removals: Vec<Removal>,
    pub defect: Option<Status>,
}

/// What a [`Round`] holds.
#[verifier::ext_equal]
pub struct RoundView {
    pub removals: Seq<RemovalView>,
    pub defect: Option<StatusView>,
}

impl View for Round {
    type V = RoundView;

    open spec fn view(&self) -> RoundView {
        RoundView {
            removals: self.removals.deep_view(),
            defect: match self.defect {
                None => None,
                Some(status) => Some(status@),
            },
        }
    }
}

/// The round that removes these objects, up to the first that cannot be named.
pub open spec fn round_of(stage: Stage, metas: Seq<ObjectMetaView>) -> RoundView
    decreases metas.len(),
{
    if metas.len() == 0 {
        RoundView { removals: Seq::empty(), defect: None }
    } else {
        let before = round_of(stage, metas.drop_last());
        if before.defect is Some {
            before
        } else {
            match removal_of(stage, metas.last()) {
                Ok(removal) => RoundView { removals: before.removals.push(removal), defect: None },
                Err(status) => RoundView { removals: before.removals, defect: Some(status) },
            }
        }
    }
}

proof fn lemma_defect_stays(stage: Stage, metas: Seq<ObjectMetaView>, upto: int)
    requires
        0 <= upto <= metas.len(),
        round_of(stage, metas.take(upto)).defect is Some,
    ensures
        round_of(stage, metas) == round_of(stage, metas.take(upto)),
    decreases metas.len(),
{
    if upto < metas.len() {
        assert(metas.drop_last().take(upto) =~= metas.take(upto));
        lemma_defect_stays(stage, metas.drop_last(), upto);
    } else {
        assert(metas.take(upto) =~= metas);
    }
}

/// The metadata of pods.
pub open spec fn pod_metas(pods: Seq<PodView>) -> Seq<ObjectMetaView> {
    pods.map_values(|pod: PodView| pod.metadata)
}

/// The metadata of services.
pub open spec fn service_metas(services: Seq<ServiceView>) -> Seq<ObjectMetaView> {
    services.map_values(|service: ServiceView| service.metadata)
}

/// The round that removes these pods.
pub fn pods_round(pods: &Vec<Pod>) -> (out: Round)
    ensures
        out@ == round_of(Stage::Pods, pod_metas(pods.deep_view())),
{
    let ghost metas = pod_metas(pods.deep_view());
    let mut removals: Vec<Removal> = Vec::new();
    let mut i: usize = 0;
    proof {
        assert(metas.take(0) =~= Seq::empty());
        assert(removals.deep_view() =~= Seq::<RemovalView>::empty());
    }
    while i < pods.len()
        invariant
            i <= pods@.len(),
            metas == pod_metas(pods.deep_view()),
            metas.len() == pods@.len(),
            round_of(Stage::Pods, metas.take(i as int)) == (RoundView {
                removals: removals.deep_view(),
                defect: None,
            }),
        decreases pods@.len() - i,
    {
        let ghost upto = metas.take(i + 1);
        proof {
            assert(upto.drop_last() =~= metas.take(i as int));
            assert(upto.last() == pods@[i as int].metadata@);
        }
        match remove(Stage::Pods, &pods[i].metadata) {
            Ok(removal) => {
                let ghost before = removals.deep_view();
                removals.push(removal);
                proof {
                    assert(removals.deep_view() =~= before.push(removal@));
                }
            },
            Err(status) => {
                proof {
                    lemma_defect_stays(Stage::Pods, metas, i + 1);
                }
                return Round { removals, defect: Some(status) };
            },
        }
        i = i + 1;
    }
    proof {
        assert(metas.take(i as int) =~= metas);
    }
    Round { removals, defect: None }
}

/// The round that removes these services.
pub fn services_round(services: &Vec<Service>) -> (out: Round)
    ensures
        out@ == round_of(Stage::Services, service_metas(services.deep_view())),
{
    let ghost metas = service_metas(services.deep_view());
    let mut removals: Vec<Removal> = Vec::new();
    let mut i: usize = 0;
    proof {
        assert(metas.take(0) =~= Seq::empty());
        assert(removals.deep_view() =~= Seq::<RemovalView>::empty());
    }
    while i < services.len()
        invariant
            i <= services@.len(),
            metas == service_metas(services.deep_view()),
            metas.len() == services@.len(),
            round_of(Stage::Services, metas.take(i as int)) == (RoundView {
                removals: removals.deep_view(),
                defect: None,
            }),
        decreases services@.len() - i,
    {
        let ghost upto = metas.take(i + 1);
        proof {
            assert(upto.drop_last() =~= metas.take(i as int));
            assert(upto.last() == services@[i as int].metadata@);
        }
        match remove(Stage::Services, &services[i].metadata) {
            Ok(removal) => {
                let ghost before = removals.deep_view();
                removals.push(removal);
                proof {
                    assert(removals.deep_view() =~= before.push(removal@));
                }
            },
            Err(status) => {
                proof {
                    lemma_defect_stays(Stage::Services, metas, i + 1);
                }
                return Round { removals, defect: Some(status) };
            },
        }
        i = i + 1;
    }
    proof {
        assert(metas.take(i as int) =~= metas);
    }
    Round { removals, defect: None }
}

/// What came of a removal.
#[derive(Debug)]
pub enum RemovalReply {
    /// It was accepted.
    Accepted,
    /// It was not; the code is that of the cluster's answer, where it gave one.
    Failed { code: Option<u16>, error: String },
}

/// Whether an answer says that the object is gone, or that its name is now
/// another object's.
pub open spec fn says_gone(code: Option<u16>) -> bool {
    code == Some(404u16) || code == Some(409u16)
}

fn is_gone(code: Option<u16>) -> (yes: bool)
    ensures
        yes == says_gone(code),
{
    match code {
        None => false,
        Some(code) => code == 404 || code == 409,
    }
}

/// Whether a termination goes on after a removal.
pub open spec fn after_removal(stage: Stage, removal: RemovalView, reply: RemovalReply) -> Result<
    (),
    StatusView,
> {
    match reply {
        RemovalReply::Accepted => Ok(()),
        RemovalReply::Failed { code, error } => if says_gone(code) {
            Ok(())
        } else {
            Err(
                refusal(
                    Code::Internal,
                    match stage {
                        Stage::Pods => "failed to delete exact Pod "@ + removal.namespace + "/"@
                            + removal.name + " UID "@ + removal.uid + ": "@ + error@,
                        Stage::Services => "failed to delete exact Service "@ + removal.namespace
                            + "/"@ + removal.name + ": "@ + error@,
                    },
                ),
            )
        },
    }
}

/// Whether a termination goes on after a removal.
pub fn removal_done(stage: Stage, removal: &Removal, reply: RemovalReply) -> (out: Result<
    (),
    Status,
>)
    ensures
        outcome_view(out) == after_removal(stage, removal@, reply),
{
    match reply {
        RemovalReply::Accepted => Ok(()),
        RemovalReply::Failed { code, error } => {
            if is_gone(code) {
                return Ok(());
            }
            let place = join3(removal.namespace.as_str(), "/", removal.name.as_str());
            let message = match stage {
                Stage::Pods => {
                    let head = join3("failed to delete exact Pod ", place.as_str(), " UID ");
                    let tail = join3(removal.uid.as_str(), ": ", error.as_str());
                    let message = join2(head.as_str(), tail.as_str());
                    proof {
                        assert(message@ =~= "failed to delete exact Pod "@ + removal@.namespace
                            + "/"@ + removal@.name + " UID "@ + removal@.uid + ": "@ + error@);
                    }
                    message
                },
                Stage::Services => {
                    let head = join3("failed to delete exact Service ", place.as_str(), ": ");
                    let message = join2(head.as_str(), error.as_str());
                    proof {
                        assert(message@ =~= "failed to delete exact Service "@ + removal@.namespace
                            + "/"@ + removal@.name + ": "@ + error@);
                    }
                    message
                },
            };
            Err(Status { code: Code::Internal, message })
        },
    }
}

/// What follows a look at what is left.
#[derive(Clone, Copy, Debug, PartialEq, Eq, Structural)]
pub enum NextStage {
    /// Remove what was found, wait, and look again.
    RemoveAndRepeat(Stage),
    /// Nothing is left at this stage: enter the next.
    Enter(Stage),
    /// Nothing is left at all.
    Finished,
}

/// What follows when `found` objects are left at a stage.
pub open spec fn next_stage(stage: Stage, found: nat) -> NextStage {
    if found > 0 {
        NextStage::RemoveAndRepeat(stage)
    } else {
        match stage {
            Stage::Pods => NextStage::Enter(Stage::Services),
            Stage::Services => NextStage::Finished,
        }
    }
}

/// What follows when `found` objects are left at a stage.
pub fn terminate_exact_execution(stage: Stage, found: usize) -> (out: NextStage)
    ensures
        out == next_stage(stage, found as nat),
{
    if found > 0 {
        NextStage::RemoveAndRepeat(stage)
    } else {
        match stage {
            Stage::Pods => NextStage::Enter(Stage::Services),
            Stage::Services => NextStage::Finished,
        }
    }
}

/// The refusal of a termination that took too long.
pub fn termination_timed_out(stage: Stage, identity: &PodExecutionIdentity) -> (out: Status)
    ensures
        out@ == refusal(
            Code::DeadlineExceeded,
            "timed out waiting for exact job "@ + decimal(identity@.key.job_id as nat) + (
            match stage {
                Stage::Pods => " Pods to terminate"@,
                Stage::Services => " Service to terminate"@,
            }),
        ),
{
    let id = u32_text(identity.key.job_id);
    let tail = match stage {
        Stage::Pods => " Pods to terminate",
        Stage::Services => " Service to terminate",
    };
    Status {
        code: Code::DeadlineExceeded,
        message: join3("timed out waiting for exact job ", id.as_str(), tail),
    }
}

/// A termination is reported done only from the last stage and only when nothing
/// is left there; that stage is entered only when no pod is left.
pub proof fn law_done_only_when_nothing_is_left(stage: Stage, found: nat)
    ensures
        next_stage(stage, found) is Finished ==> stage is Services && found == 0,
        next_stage(stage, found) == NextStage::Enter(Stage::Services) ==> stage is Pods && found
            == 0,
        next_stage(stage, found) != NextStage::Enter(Stage::Pods),
{
}

proof fn lemma_round_removals(stage: Stage, metas: Seq<ObjectMetaView>)
    ensures
        forall|i: int|
            0 <= i < round_of(stage, metas).removals.len() ==> {
                let removal = #[trigger] round_of(stage, metas).removals[i];
                &&& i < metas.len()
                &&& removal_of(stage, metas[i]) == Ok::<RemovalView, StatusView>(removal)
            },
        round_of(stage, metas).defect is None ==> round_of(stage, metas).removals.len()
            == metas.len(),
        round_of(stage, metas).removals.len() <= metas.len(),
    decreases metas.len(),
{
    if metas.len() > 0 {
        lemma_round_removals(stage, metas.drop_last());
        let before = round_of(stage, metas.drop_last());
        let round = round_of(stage, metas);
        assert forall|i: int| 0 <= i < round.removals.len() implies {
            let removal = #[trigger] round.removals[i];
            &&& i < metas.len()
            &&& removal_of(stage, metas[i]) == Ok::<RemovalView, StatusView>(removal)
        } by {
            if i < before.removals.len() {
                assert(before.removals[i] == round.removals[i]);
                assert(metas.drop_last()[i] == metas[i]);
            }
        }
    }
}

/// A round never removes an object by its name alone: each removal carries the
/// UID of a listed pod that the job binds to the very execution that was named.
/// A late request for a reused job ID therefore removes nothing of the job that
/// has the ID now.
pub proof fn law_only_bound_pods_are_removed(
    status: SpurJobStatusView,
    owner_uid: Seq<char>,
    requested: PodExecutionIdentityView,
    pods: Seq<PodView>,
)
    ensures
        control_pods(status, owner_uid, requested, pods, true) matches Ok(kept) ==> forall|i: int|
            0 <= i < round_of(Stage::Pods, pod_metas(kept)).removals.len() ==> {
                let removal = #[trigger] round_of(Stage::Pods, pod_metas(kept)).removals[i];
                &&& i < kept.len()
                &&& pods.contains(kept[i])
                &&& kept[i].metadata.uid == Some(removal.uid)
                &&& kept[i].metadata.name == Some(removal.name)
                &&& binds_cleanup_pod(status, owner_uid, requested, kept[i].metadata)
            },
{
    if let Ok(kept) = control_pods(status, owner_uid, requested, pods, true) {
        law_controlled_pods_are_bound(status, owner_uid, requested, pods, true);
        lemma_round_removals(Stage::Pods, pod_metas(kept));
        assert forall|i: int|
            0 <= i < round_of(Stage::Pods, pod_metas(kept)).removals.len() implies {
            let removal = #[trigger] round_of(Stage::Pods, pod_metas(kept)).removals[i];
            &&& i < kept.len()
            &&& pods.contains(kept[i])
            &&& kept[i].metadata.uid == Some(removal.uid)
            &&& kept[i].metadata.name == Some(removal.name)
            &&& binds_cleanup_pod(status, owner_uid, requested, kept[i].metadata)
        } by {
            assert(pod_metas(kept)[i] == kept[i].metadata);
        }
    }
}

/// Services are removed as pods are: by the UID of a listed service that the job
/// binds to the execution, by its own UID or by the token recorded for it.
pub proof fn law_only_bound_services_are_removed(
    status: SpurJobStatusView,
    owner_uid: Seq<char>,
    identity: PodExecutionIdentityView,
    services: Seq<ServiceView>,
)
    ensures
        control_services(status, owner_uid, identity, services, true) matches Ok(kept) ==> forall|
            i: int,
        |
            0 <= i < round_of(Stage::Services, service_metas(kept)).removals.len() ==> {
                let removal = #[trigger] round_of(Stage::Services, service_metas(kept)).removals[i];
                &&& i < kept.len()
                &&& services.contains(kept[i])
                &&& kept[i].metadata.uid == Some(removal.uid)
                &&& kept[i].metadata.name == Some(removal.name)
                &&& binds_control_service(status, owner_uid, identity, kept[i])
                    || binds_cleanup_service(status, owner_uid, identity, kept[i])
            },
{
    if let Ok(kept) = control_services(status, owner_uid, identity, services, true) {
        law_controlled_services_are_bound(status, owner_uid, identity, services, true);
        lemma_round_removals(Stage::Services, service_metas(kept));
        assert forall|i: int|
            0 <= i < round_of(Stage::Services, service_metas(kept)).removals.len() implies {
            let removal = #[trigger] round_of(Stage::Services, service_metas(kept)).removals[i];
            &&& i < kept.len()
            &&& services.contains(kept[i])
            &&& kept[i].metadata.uid == Some(removal.uid)
            &&& kept[i].metadata.name == Some(removal.name)
            &&& binds_control_service(status, owner_uid, identity, kept[i])
                || binds_cleanup_service(status, owner_uid, identity, kept[i])
        } by {
            assert(service_metas(kept)[i] == kept[i].metadata);
        }
    }
}

/// How a job is to be ended.
#[derive(Clone, Copy, Debug, PartialEq, Eq, Structural)]
pub enum AgentJobControlMode {
    Unspecified,
    SignalOnly,
    TerminateAndReap,
}

/// The execution to end, for a request with this mode; an unknown mode is none.
pub open spec fn cancelled(
    req: ExecutionRequestView,
    mode: Option<AgentJobControlMode>,
) -> Result<PodExecutionIdentityView, StatusView> {
    match requested_identity(
        req.job_id,
        req.submission_generation,
        req.run_attempt,
        req.worker_incarnation,
    ) {
        Err(status) => Err(status),
        Ok(identity) => match mode {
            None => Err(refusal(Code::InvalidArgument, "unknown job control mode"@)),
            Some(AgentJobControlMode::TerminateAndReap) => Ok(identity),
            Some(AgentJobControlMode::SignalOnly) => Err(
                refusal(
                    Code::Unimplemented,
                    "signal-only job control is not supported by the K8s virtual agent"@,
                ),
            ),
            Some(AgentJobControlMode::Unspecified) => Err(
                refusal(Code::InvalidArgument, "job control mode is required"@),
            ),
        },
    }
}

/// The execution to end, for a request with this mode; an unknown mode is none.
pub fn cancel_job(req: &ExecutionRequest, mode: Option<AgentJobControlMode>) -> (out: Result<
    PodExecutionIdentity,
    Status,
>)
    ensures
        outcome_view(out) == cancelled(req@, mode),
{
    let identity = match PodExecutionIdentity::from_request(
        req.job_id,
        req.submission_generation.as_str(),
        req.run_attempt,
        req.worker_incarnation.as_str(),
    ) {
        Err(status) => return Err(status),
        Ok(identity) => identity,
    };
    match mode {
        None => Err(Status::new(Code::InvalidArgument, "unknown job control mode")),
        Some(AgentJobControlMode::TerminateAndReap) => Ok(identity),
        Some(AgentJobControlMode::SignalOnly) => Err(
            Status::new(
                Code::Unimplemented,
                "signal-only job control is not supported by the K8s virtual agent",
            ),
        ),
        Some(AgentJobControlMode::Unspecified) => Err(
            Status::new(Code::InvalidArgument, "job control mode is required"),
        ),
    }
}

/// What is asked to be removed is the object that was found: by its namespace
/// and name, and only while it has the UID it was found with. A pod is given no
/// time to end; a service is not a process and has no such time.
pub proof fn law_removal_names_the_object_found(meta: ObjectMetaView)
    ensures
        removal_of(Stage::Pods, meta) is Ok <==> meta.namespace is Some && meta.name is Some
            && meta.uid is Some,
        removal_of(Stage::Services, meta) is Ok <==> removal_of(Stage::Pods, meta) is Ok,
        removal_of(Stage::Pods, meta) matches Ok(removal) ==> Some(removal.namespace)
            == meta.namespace && Some(removal.name) == meta.name && Some(removal.uid) == meta.uid
            && removal.grace_period_seconds == Some(0u32),
        removal_of(Stage::Services, meta) matches Ok(removal) ==> Some(removal.namespace)
            == meta.namespace && Some(removal.name) == meta.name && Some(removal.uid) == meta.uid
            && removal.grace_period_seconds is None,
{
}

/// A round asks for the removal of every object that was found, in order, unless
/// one of them cannot be named: then it ends there, and says so.
pub proof fn law_round_removes_all_that_was_found(stage: Stage, metas: Seq<ObjectMetaView>)
    ensures
        ({
            let round = round_of(stage, metas);
            &&& round.removals.len() <= metas.len()
            &&& round.defect is None <==> round.removals.len() == metas.len()
            &&& round.defect is None <==> forall|i: int|
                0 <= i < metas.len() ==> (#[trigger] metas[i]).namespace is Some
                    && metas[i].name is Some && metas[i].uid is Some
            &&& forall|i: int|
                0 <= i < round.removals.len() ==> Some((#[trigger] round.removals[i]).namespace)
                    == metas[i].namespace && Some(round.removals[i].name) == metas[i].name && Some(
                    round.removals[i].uid,
                ) == metas[i].uid
        }),
    decreases metas.len(),
{
    if metas.len() > 0 {
        let init = metas.drop_last();
        law_round_removes_all_that_was_found(stage, init);
        let round = round_of(stage, metas);
        assert(metas[metas.len() - 1] == metas.last());
        assert forall|i: int| 0 <= i < init.len() implies #[trigger] metas[i] == init[i] by {};
        assert forall|i: int| 0 <= i < round.removals.len() implies Some(
            (#[trigger] round.removals[i]).namespace,
        ) == metas[i].namespace && Some(round.removals[i].name) == metas[i].name && Some(
            round.removals[i].uid,
        ) == metas[i].uid by {
            if i < round_of(stage, init).removals.len() {
                assert(round.removals[i] == round_of(stage, init).removals[i]);
            }
        }
        if round.defect is Some {
            if round_of(stage, init).defect is Some {
                let i = choose|i: int|
                    0 <= i < init.len() && !((#[trigger] init[i]).namespace is Some
                        && init[i].name is Some && init[i].uid is Some);
                assert(metas[i] == init[i]);
            }
        } else {
            assert forall|i: int| 0 <= i < metas.len() implies (#[trigger] metas[i]).namespace is Some
                && metas[i].name is Some && metas[i].uid is Some by {
                if i < init.len() {
                    assert(init[i] == metas[i]);
                }
            }
        }
    }
}

/// A removal is settled where the cluster accepted it, or says that the object
/// is not there any more (404) or is another one by now (409). Any other answer
/// is an error that names the object.
pub proof fn law_removal_is_settled_by_absence(
    stage: Stage,
    removal: RemovalView,
    code: Option<u16>,
    error: String,
)
    ensures
        after_removal(stage, removal, RemovalReply::Accepted) is Ok,
        after_removal(stage, removal, RemovalReply::Failed { code, error }) is Ok <==> code is Some
            && (code->0 == 404 || code->0 == 409),
        after_removal(stage, removal, RemovalReply::Failed { code, error }) matches Err(status)
            ==> status.code == Code::Internal,
{
}

/// The pods to act on are those the job has on record, and nothing is decided of
/// a job without a namespace, a UID or a status, nor of a list that was not read.
pub proof fn law_pods_are_sought_for_a_known_owner(
    owner: SpurJobView,
    identity: PodExecutionIdentityView,
    listed: Result<Seq<PodView>, Seq<char>>,
    allow_cleanup_recovery: bool,
)
    ensures
        exact_pods(owner, identity, listed, allow_cleanup_recovery) matches Ok(kept) ==> {
            &&& owner.metadata.namespace is Some
            &&& owner.metadata.uid is Some
            &&& owner.status is Some
            &&& listed is Ok
            &&& control_pods(
                owner.status->0,
                owner.metadata.uid->0,
                identity,
                listed->Ok_0,
                allow_cleanup_recovery,
            ) == Ok::<Seq<PodView>, Seq<char>>(kept)
        },
        owner.metadata.namespace is Some && owner.metadata.uid is Some && owner.status is Some
            && listed is Err ==> (exact_pods(
            owner,
            identity,
            listed,
            allow_cleanup_recovery,
        )->Err_0).code == Code::Internal,
        owner.metadata.namespace is Some && owner.metadata.uid is Some && owner.status is Some
            ==> exact_pods(
            owner,
            identity,
            Ok(Seq::empty()),
            allow_cleanup_recovery,
        ) == Ok::<Seq<PodView>, StatusView>(Seq::empty()),
{
}

/// The services to act on are judged with the token that the job recorded, and
/// unrecorded ones are recovered by their own tokens.
pub proof fn law_services_are_sought_with_the_recorded_token(
    owner: SpurJobView,
    identity: PodExecutionIdentityView,
    listed: Result<Seq<ServiceView>, Seq<char>>,
)
    ensures
        exact_services(owner, identity, listed) matches Ok(kept) ==> {
            &&& owner.metadata.namespace is Some
            &&& owner.metadata.uid is Some
            &&& owner.status is Some
            &&& (owner.status->0).submission_token is Some
            &&& listed is Ok
            &&& control_services(
                owner.status->0,
                owner.metadata.uid->0,
                PodExecutionIdentityView {
                    key: identity.key,
                    worker_incarnation: identity.worker_incarnation,
                    submission_token: (owner.status->0).submission_token->0,
                    pod_dispatch_token: identity.pod_dispatch_token,
                },
                listed->Ok_0,
                true,
            ) == Ok::<Seq<ServiceView>, Seq<char>>(kept)
        },
{
}

/// A stage is gone through again as long as anything was found at it; pods come
/// before services.
pub proof fn law_stages_come_in_order(stage: Stage, found: nat)
    ensures
        found > 0 ==> next_stage(stage, found) == NextStage::RemoveAndRepeat(stage),
        next_stage(Stage::Pods, 0) == NextStage::Enter(Stage::Services),
        next_stage(Stage::Services, 0) is Finished,
{
}

/// A cancellation names one execution in full, and asks for it to be ended: the
/// identity is the one of the request, and no other mode is carried out.
pub proof fn law_cancellation_is_of_the_execution_named(
    req: ExecutionRequestView,
    mode: Option<AgentJobControlMode>,
)
    ensures
        cancelled(req, mode) matches Ok(identity) ==> {
            &&& mode == Some(AgentJobControlMode::TerminateAndReap)
            &&& identity.key.job_id == req.job_id
            &&& identity.key.submission_generation == req.submission_generation
            &&& identity.key.run_attempt == req.run_attempt
            &&& identity.worker_incarnation == req.worker_incarnation
            &&& identity.submission_token.len() == 0
            &&& identity.pod_dispatch_token.len() == 0
        },
        cancelled(req, Some(AgentJobControlMode::TerminateAndReap)) is Ok
            <==> req.submission_generation.len() > 0 && req.run_attempt != 0
            && req.worker_incarnation.len() > 0,
        cancelled(req, Some(AgentJobControlMode::TerminateAndReap)) is Ok ==> (cancelled(
            req,
            Some(AgentJobControlMode::SignalOnly),
        )->Err_0).code == Code::Unimplemented && (cancelled(req, None)->Err_0).code
            == Code::InvalidArgument && (cancelled(
            req,
            Some(AgentJobControlMode::Unspecified),
        )->Err_0).code == Code::InvalidArgument,
{
}

/// The pods of a job are selected by the number on their label.
pub proof fn law_selector_is_of_one_job(a: u32, b: u32)
    ensures
        selector_of_job(a).take(JOB_ID_LABEL@.len() as int) == JOB_ID_LABEL@,
        selector_of_job(a)[JOB_ID_LABEL@.len() as int] == '=',
        selector_of_job(a).skip(JOB_ID_LABEL@.len() as int + 1) == decimal(a as nat),
        selector_of_job(a) == selector_of_job(b) ==> a == b,
{
    reveal_strlit("=");
    assert(selector_of_job(a).take(JOB_ID_LABEL@.len() as int) =~= JOB_ID_LABEL@);
    assert(selector_of_job(a).skip(JOB_ID_LABEL@.len() as int + 1) =~= decimal(a as nat));
    assert(selector_of_job(b).skip(JOB_ID_LABEL@.len() as int + 1) =~= decimal(b as nat));
    if selector_of_job(a) == selector_of_job(b) {
        law_decimal_injective(a as nat, b as nat);
    }
}

/// Objects are looked for in the namespace of their job.
pub proof fn law_objects_are_in_the_jobs_namespace(owner: SpurJobView)
    ensures
        namespace_of_owner(owner) is Ok <==> owner.metadata.namespace is Some
            && owner.metadata.uid is Some && owner.status is Some,
        namespace_of_owner(owner) matches Ok(namespace) ==> owner.metadata.namespace == Some(
            namespace,
        ),
{
}

} // verus!
