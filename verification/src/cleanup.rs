//! Ending a submission at the controller and removing what was created for it.

use vstd::prelude::*;
use crate::control::{
    controlled_by, has_controller, law_only_controllers_own, opt_reads,
    resource_has_controller_owner,
};
use crate::crd::{SpurJob, SpurJobStatus, SpurJobStatusView, SpurJobView};
use crate::execution_identity::{
    carried_identity, get_opt, holds, is_blank, lookup, lookup_opt, nonempty, PodExecutionIdentity,
    JOB_ID_LABEL, SERVICE_DISPATCH_TOKEN_ANNOTATION, SUBMISSION_GENERATION_ANNOTATION,
    SUBMISSION_TOKEN_ANNOTATION,
};
use crate::k8s::{Pod, PodView, Service, ServiceView};
use crate::plain::Plain;
use crate::provenance::{NextAttempt, UPDATE_ATTEMPTS};
use crate::reconcile::{
    job_error, reconciled, KubeError, KubeErrorView, ReconcileError, ReconcileErrorView,
};
use crate::status::{outcome_view, Code, Status, StatusView};
use crate::strmap::StrMap;
use crate::terminate::{job_selector, selector_of_job};
use crate::text::{decimal, join2, join3, same_text, u32_text};
use crate::wire::{
    CancelByTokenResponse, CancelByTokenResponseView, JobInfo, JobInfoView,
};

verus! {

/// How long the removal of a submission's objects may take, in seconds.
pub const REMOVAL_BUDGET_SECS: u64 = 30;

/// How long to wait between two looks at what is left, in milliseconds.
pub const REMOVAL_POLL_MILLIS: u64 = 100;

/// The selector of every object that the operator manages.
pub const MANAGED_SELECTOR: &'static str = "spur.amd.com/managed-by=spur-k8s-operator";

/// A submission: a job ID and the generation that tells it from others with that ID.
#[derive(Clone, Debug, Default)]
pub struct Submission {
    pub job_id: u32,
    pub generation: String,
}

/// What a [`Submission`] holds.
#[verifier::ext_equal]
pub struct SubmissionView {
    pub job_id: u32,
    pub generation: Seq<char>,
}

impl View for Submission {
    type V = SubmissionView;

    open spec fn view(&self) -> SubmissionView {
        SubmissionView {
            job_id: self.job_id.deep_view(),
            generation: self.generation.deep_view(),
        }
    }
}

impl DeepView for Submission {
    type V = SubmissionView;

    open spec fn deep_view(&self) -> SubmissionView {
        self@
    }
}

impl Plain for Submission {
    fn equals(&self, other: &Self) -> (same: bool) {
        self.job_id.equals(&other.job_id)
            && self.generation.equals(&other.generation)
    }

    fn copy_of(&self) -> (out: Self) {
        Submission {
            job_id: self.job_id.copy_of(),
            generation: self.generation.copy_of(),
        }
    }
}

/// Records a submission in a job's status, if the job still has this version.
#[derive(Clone, Debug, Default)]
pub struct IdentityPatch {
    pub resource_version: String,
    pub job_id: u32,
    pub submission_generation: String,
}

/// What an [`IdentityPatch`] holds.
#[verifier::ext_equal]
pub struct IdentityPatchView {
    pub resource_version: Seq<char>,
    pub job_id: u32,
    pub submission_generation: Seq<char>,
}

impl View for IdentityPatch {
    type V = IdentityPatchView;

    open spec fn view(&self) -> IdentityPatchView {
        IdentityPatchView {
            resource_version: self.resource_version.deep_view(),
            job_id: self.job_id.deep_view(),
            submission_generation: self.submission_generation.deep_view(),
        }
    }
}

impl DeepView for IdentityPatch {
    type V = IdentityPatchView;

    open spec fn deep_view(&self) -> IdentityPatchView {
        self@
    }
}

impl Plain for IdentityPatch {
    fn equals(&self, other: &Self) -> (same: bool) {
        self.resource_version.equals(&other.resource_version)
            && self.job_id.equals(&other.job_id)
            && self.submission_generation.equals(&other.submission_generation)
    }

    fn copy_of(&self) -> (out: Self) {
        IdentityPatch {
            resource_version: self.resource_version.copy_of(),
            job_id: self.job_id.copy_of(),
            submission_generation: self.submission_generation.copy_of(),
        }
    }
}

/// What must hold of an object for it to be removed.
#[derive(Clone, Debug, Default)]
pub struct Preconditions {
    pub uid: Option<String>,
    pub resource_version: Option<String>,
}

/// What a [`Preconditions`] holds.
#[verifier::ext_equal]
pub struct PreconditionsView {
    pub uid: Option<Seq<char>>,
    pub resource_version: Option<Seq<char>>,
}

impl View for Preconditions {
    type V = PreconditionsView;

    open spec fn view(&self) -> PreconditionsView {
        PreconditionsView {
            uid: self.uid.deep_view(),
            resource_version: self.resource_version.deep_view(),
        }
    }
}

impl DeepView for Preconditions {
    type V = PreconditionsView;

    open spec fn deep_view(&self) -> PreconditionsView {
        self@
    }
}

impl Plain for Preconditions {
    fn equals(&self, other: &Self) -> (same: bool) {
        self.uid.equals(&other.uid)
            && self.resource_version.equals(&other.resource_version)
    }

    fn copy_of(&self) -> (out: Self) {
        Preconditions {
            uid: self.uid.copy_of(),
            resource_version: self.resource_version.copy_of(),
        }
    }
}

/// How an object is removed.
#[derive(Clone, Debug, Default)]
pub struct DeleteParams {
    pub grace_period_seconds: Option<u32>,
    pub preconditions: Option<Preconditions>,
}

/// What a [`DeleteParams`] holds.
#[verifier::ext_equal]
pub struct DeleteParamsView {
    pub grace_period_seconds: Option<u32>,
    pub preconditions: Option<PreconditionsView>,
}

impl View for DeleteParams {
    type V = DeleteParamsView;

    open spec fn view(&self) -> DeleteParamsView {
        DeleteParamsView {
            grace_period_seconds: self.grace_period_seconds.deep_view(),
            preconditions: self.preconditions.deep_view(),
        }
    }
}

impl DeepView for DeleteParams {
    type V = DeleteParamsView;

    open spec fn deep_view(&self) -> DeleteParamsView {
        self@
    }
}

impl Plain for DeleteParams {
    fn equals(&self, other: &Self) -> (same: bool) {
        self.grace_period_seconds.equals(&other.grace_period_seconds)
            && self.preconditions.equals(&other.preconditions)
    }

    fn copy_of(&self) -> (out: Self) {
        DeleteParams {
            grace_period_seconds: self.grace_period_seconds.copy_of(),
            preconditions: self.preconditions.copy_of(),
        }
    }
}

/// The name of an object and its UID.
#[derive(Clone, Debug, Default)]
pub struct NamedUid {
    pub name: String,
    pub uid: String,
}

/// What a [`NamedUid`] holds.
#[verifier::ext_equal]
pub struct NamedUidView {
    pub name: Seq<char>,
    pub uid: Seq<char>,
}

impl View for NamedUid {
    type V = NamedUidView;

    open spec fn view(&self) -> NamedUidView {
        NamedUidView {
            name: self.name.deep_view(),
            uid: self.uid.deep_view(),
        }
    }
}

impl DeepView for NamedUid {
    type V = NamedUidView;

    open spec fn deep_view(&self) -> NamedUidView {
        self@
    }
}

impl Plain for NamedUid {
    fn equals(&self, other: &Self) -> (same: bool) {
        self.name.equals(&other.name)
            && self.uid.equals(&other.uid)
    }

    fn copy_of(&self) -> (out: Self) {
        NamedUid {
            name: self.name.copy_of(),
            uid: self.uid.copy_of(),
        }
    }
}

/// The submission that a status names completely.
pub open spec fn exact_submission(status: SpurJobStatusView) -> Option<SubmissionView> {
    match (status.spur_job_id, nonempty(status.submission_generation)) {
        (Some(job_id), Some(generation)) => Some(SubmissionView { job_id, generation }),
        _ => None,
    }
}

/// The submission that a status names completely.
pub fn exact_submission_for_cleanup(status: &SpurJobStatus) -> (out: Option<Submission>)
    ensures
        out.deep_view() == exact_submission(status@),
{
    match (&status.spur_job_id, &status.submission_generation) {
        (Some(job_id), Some(generation)) => {
            if is_blank(generation) {
                None
            } else {
                Some(Submission { job_id: *job_id, generation: generation.clone() })
            }
        },
        _ => None,
    }
}

/// How far the controller is with ending a submission, and which one it is.
#[derive(Debug)]
pub enum ControllerCleanupFence {
    Pending(Option<Submission>),
    Complete(Option<Submission>),
}

/// What a [`ControllerCleanupFence`] holds.
pub enum FenceView {
    Pending(Option<SubmissionView>),
    Complete(Option<SubmissionView>),
}

impl View for ControllerCleanupFence {
    type V = FenceView;

    open spec fn view(&self) -> FenceView {
        match self {
            ControllerCleanupFence::Pending(exact) => FenceView::Pending(exact.deep_view()),
            ControllerCleanupFence::Complete(exact) => FenceView::Complete(exact.deep_view()),
        }
    }
}

impl FenceView {
    /// The submission that is being ended.
    pub open spec fn exact_submission(self) -> Option<SubmissionView> {
        match self {
            FenceView::Pending(exact) => exact,
            FenceView::Complete(exact) => exact,
        }
    }
}

impl ControllerCleanupFence {
    /// The submission that is being ended.
    pub fn exact_submission(&self) -> (out: Option<&Submission>)
        ensures
            match out {
                Some(exact) => self@.exact_submission() == Some(exact@),
                None => self@.exact_submission() is None,
            },
    {
        match self {
            ControllerCleanupFence::Pending(Some(exact)) => Some(exact),
            ControllerCleanupFence::Complete(Some(exact)) => Some(exact),
            _ => None,
        }
    }
}

/// How the controller is asked to end a submission.
#[derive(Debug)]
pub enum FenceRequest {
    /// By the token that it was submitted with.
    ByToken(String),
    /// By its exact identity.
    ByIdentity(Submission),
    /// It was never submitted.
    Nothing,
}

/// What a [`FenceRequest`] holds.
pub enum FenceRequestView {
    ByToken(Seq<char>),
    ByIdentity(SubmissionView),
    Nothing,
}

impl View for FenceRequest {
    type V = FenceRequestView;

    open spec fn view(&self) -> FenceRequestView {
        match self {
            FenceRequest::ByToken(token) => FenceRequestView::ByToken(token@),
            FenceRequest::ByIdentity(exact) => FenceRequestView::ByIdentity(exact@),
            FenceRequest::Nothing => FenceRequestView::Nothing,
        }
    }
}

/// How the controller is asked to end the submission of a job with this status.
pub open spec fn fence_asked(status: SpurJobStatusView) -> FenceRequestView {
    match nonempty(status.submission_token) {
        Some(token) => FenceRequestView::ByToken(token),
        None => match exact_submission(status) {
            Some(exact) => FenceRequestView::ByIdentity(exact),
            None => FenceRequestView::Nothing,
        },
    }
}

/// How the controller is asked to end the submission of a job with this status.
/// Where it is asked nothing, there is nothing left to end.
pub fn fence_request(status: &SpurJobStatus) -> (out: FenceRequest)
    ensures
        out@ == fence_asked(status@),
{
    if let Some(token) = &status.submission_token {
        if !is_blank(token) {
            return FenceRequest::ByToken(token.clone());
        }
    }
    match exact_submission_for_cleanup(status) {
        Some(exact) => FenceRequest::ByIdentity(exact),
        None => FenceRequest::Nothing,
    }
}

/// The submission that an answer to a cancellation by token names.
pub open spec fn answered_submission(response: CancelByTokenResponseView) -> Result<
    Option<SubmissionView>,
    ReconcileErrorView,
> {
    if response.job_id == 0 {
        if response.submission_generation.len() > 0 {
            Err(
                ReconcileErrorView::Other(
                    "token cancellation returned a generation without a job ID"@,
                ),
            )
        } else {
            Ok(None)
        }
    } else if response.submission_generation.len() == 0 {
        Err(
            ReconcileErrorView::Other(
                "token cancellation omitted generation for job "@ + decimal(
                    response.job_id as nat,
                ),
            ),
        )
    } else {
        Ok(
            Some(
                SubmissionView {
                    job_id: response.job_id,
                    generation: response.submission_generation,
                },
            ),
        )
    }
}

/// How far the controller is, by its answer to a cancellation by token.
pub open spec fn fenced_by_token(
    status: SpurJobStatusView,
    response: CancelByTokenResponseView,
) -> Result<FenceView, ReconcileErrorView> {
    match answered_submission(response) {
        Err(error) => Err(error),
        Ok(exact) => if status.spur_job_id matches Some(job_id) && !(exact matches Some(found)
            && found.job_id == job_id) {
            Err(
                ReconcileErrorView::Other(
                    "token cancellation identity conflicts with durable SpurJob status"@,
                ),
            )
        } else if nonempty(status.submission_generation) matches Some(generation) && !(
        exact matches Some(found) && found.generation == generation) {
            Err(
                ReconcileErrorView::Other(
                    "token cancellation generation conflicts with durable SpurJob status"@,
                ),
            )
        } else if response.cleanup_complete {
            Ok(FenceView::Complete(exact))
        } else {
            Ok(FenceView::Pending(exact))
        },
    }
}

/// How far the controller is, by its answer to a cancellation by token.
pub fn fence_by_token(status: &SpurJobStatus, response: CancelByTokenResponse) -> (out: Result<
    ControllerCleanupFence,
    ReconcileError,
>)
    ensures
        reconciled(out) == fenced_by_token(status@, response@),
{
    let exact: Option<Submission> = if response.job_id == 0 {
        if !is_blank(&response.submission_generation) {
            return Err(job_error("token cancellation returned a generation without a job ID"));
        }
        None
    } else {
        if is_blank(&response.submission_generation) {
            let id = u32_text(response.job_id);
            return Err(
                ReconcileError::Other(
                    join2("token cancellation omitted generation for job ", id.as_str()),
                ),
            );
        }
        Some(
            Submission {
                job_id: response.job_id,
                generation: response.submission_generation.clone(),
            },
        )
    };
    proof {
        assert(answered_submission(response@) == Ok::<Option<SubmissionView>, ReconcileErrorView>(
            exact.deep_view(),
        ));
    }
    if let Some(job_id) = &status.spur_job_id {
        let agrees = match &exact {
            Some(found) => found.job_id == *job_id,
            None => false,
        };
        if !agrees {
            return Err(
                job_error("token cancellation identity conflicts with durable SpurJob status"),
            );
        }
    }
    if let Some(generation) = &status.submission_generation {
        if !is_blank(generation) {
            let agrees = match &exact {
                Some(found) => found.generation == *generation,
                None => false,
            };
            if !agrees {
                return Err(
                    job_error("token cancellation generation conflicts with durable SpurJob status"),
                );
            }
        }
    }
    Ok(
        if response.cleanup_complete {
            ControllerCleanupFence::Complete(exact)
        } else {
            ControllerCleanupFence::Pending(exact)
        },
    )
}

/// How far the controller is, by what it says about a job that was cancelled by
/// its identity.
pub open spec fn fenced_by_identity(
    exact: SubmissionView,
    reply: Result<JobInfoView, StatusView>,
) -> Result<FenceView, ReconcileErrorView> {
    match reply {
        Err(status) => if status.code == Code::NotFound {
            Ok(FenceView::Complete(Some(exact)))
        } else {
            Err(ReconcileErrorView::Grpc(status))
        },
        Ok(info) => if info.submission_generation != exact.generation {
            Ok(FenceView::Complete(Some(exact)))
        } else {
            Ok(FenceView::Pending(Some(exact)))
        },
    }
}

/// How far the controller is, by what it says about a job that was cancelled by
/// its identity: it is done once the job is gone, or its ID is another's.
pub fn fence_by_identity(exact: Submission, reply: Result<JobInfo, Status>) -> (out: Result<
    ControllerCleanupFence,
    ReconcileError,
>)
    ensures
        reconciled(out) == fenced_by_identity(exact@, outcome_view(reply)),
{
    match reply {
        Err(status) => {
            if status.code == Code::NotFound {
                Ok(ControllerCleanupFence::Complete(Some(exact)))
            } else {
                Err(ReconcileError::Grpc(status))
            }
        },
        Ok(info) => {
            if info.submission_generation != exact.generation {
                Ok(ControllerCleanupFence::Complete(Some(exact)))
            } else {
                Ok(ControllerCleanupFence::Pending(Some(exact)))
            }
        },
    }
}

/// What to do so that a job's status names its submission.
#[derive(Debug)]
pub enum BackfillStep {
    /// Record it, then ensure the labels.
    Persist(IdentityPatch),
    /// It does; ensure the labels.
    EnsureLabels,
}

/// What a [`BackfillStep`] holds.
pub enum BackfillStepView {
    Persist(IdentityPatchView),
    EnsureLabels,
}

impl View for BackfillStep {
    type V = BackfillStepView;

    open spec fn view(&self) -> BackfillStepView {
        match self {
            BackfillStep::Persist(patch) => BackfillStepView::Persist(patch@),
            BackfillStep::EnsureLabels => BackfillStepView::EnsureLabels,
        }
    }
}

/// The status of a job, empty where it has none.
pub open spec fn status_or_empty(job: SpurJobView) -> SpurJobStatusView {
    match job.status {
        Some(status) => status,
        None => empty_status(),
    }
}

/// The status of a job that nothing was recorded for.
pub open spec fn empty_status() -> SpurJobStatusView {
    SpurJobStatusView {
        state: Seq::empty(),
        spur_job_id: None,
        submission_generation: None,
        submission_token: None,
        launch_spec_sha256: None,
        assigned_nodes: Seq::empty(),
        message: None,
        pod_uids: Map::empty(),
        pod_dispatch_tokens: Map::empty(),
        service_uids: Map::empty(),
        service_dispatch_tokens: Map::empty(),
        completion_deliveries: Seq::empty(),
    }
}

/// The status of a job, empty where it has none.
pub fn recorded_status(job: &SpurJob) -> (out: SpurJobStatus)
    ensures
        out@ == status_or_empty(job@),
{
    match &job.status {
        Some(status) => status.copy_of(),
        None => {
            let out = SpurJobStatus {
                state: String::new(),
                spur_job_id: None,
                submission_generation: None,
                submission_token: None,
                launch_spec_sha256: None,
                assigned_nodes: Vec::new(),
                message: None,
                pod_uids: StrMap::new(),
                pod_dispatch_tokens: StrMap::new(),
                service_uids: StrMap::new(),
                service_dispatch_tokens: StrMap::new(),
                completion_deliveries: Vec::new(),
            };
            proof {
                assert(out@ =~= empty_status());
            }
            out
        },
    }
}

/// What to do so that a job's status names the submission with this identity.
pub open spec fn backfilled(
    fresh: SpurJobView,
    expected_token: Option<Seq<char>>,
    exact: SubmissionView,
) -> Result<BackfillStepView, ReconcileErrorView> {
    let status = status_or_empty(fresh);
    if expected_token is Some && status.submission_token != expected_token {
        Err(
            ReconcileErrorView::Other(
                "submission token changed while recovering controller identity"@,
            ),
        )
    } else if (status.spur_job_id matches Some(job_id) && job_id != exact.job_id) || (nonempty(
        status.submission_generation,
    ) matches Some(generation) && generation != exact.generation) {
        Err(
            ReconcileErrorView::Other(
                "controller identity conflicts with durable SpurJob status"@,
            ),
        )
    } else if status.spur_job_id == Some(exact.job_id) && status.submission_generation == Some(
        exact.generation,
    ) {
        Ok(BackfillStepView::EnsureLabels)
    } else {
        match fresh.metadata.resource_version {
            None => Err(ReconcileErrorView::Other("SpurJob has no resourceVersion"@)),
            Some(resource_version) => Ok(
                BackfillStepView::Persist(
                    IdentityPatchView {
                        resource_version,
                        job_id: exact.job_id,
                        submission_generation: exact.generation,
                    },
                ),
            ),
        }
    }
}

/// What to do so that a job's status names the submission with this identity.
pub fn backfill_controller_identity(
    fresh: &SpurJob,
    expected_token: &Option<String>,
    exact: &Submission,
) -> (out: Result<BackfillStep, ReconcileError>)
    ensures
        reconciled(out) == backfilled(fresh@, expected_token.deep_view(), exact@),
{
    let status = recorded_status(fresh);
    if expected_token.is_some() && !status.submission_token.equals(expected_token) {
        return Err(job_error("submission token changed while recovering controller identity"));
    }
    let other_id = match &status.spur_job_id {
        Some(job_id) => *job_id != exact.job_id,
        None => false,
    };
    let other_generation = match &status.submission_generation {
        Some(generation) => !is_blank(generation) && *generation != exact.generation,
        None => false,
    };
    if other_id || other_generation {
        return Err(job_error("controller identity conflicts with durable SpurJob status"));
    }
    if status.spur_job_id.equals(&Some(exact.job_id)) && opt_reads(
        &status.submission_generation,
        &exact.generation,
    ) {
        return Ok(BackfillStep::EnsureLabels);
    }
    match &fresh.metadata.resource_version {
        None => Err(job_error("SpurJob has no resourceVersion")),
        Some(resource_version) => Ok(
            BackfillStep::Persist(
                IdentityPatch {
                    resource_version: resource_version.clone(),
                    job_id: exact.job_id,
                    submission_generation: exact.generation.clone(),
                },
            ),
        ),
    }
}

/// What came of an update of a job.
#[derive(Debug)]
pub enum UpdateReply {
    /// It was made.
    Applied,
    /// It was not.
    Failed(KubeError),
}

/// What follows the update made after `attempt` others: a conflict is decided
/// anew, as long as attempts are left.
pub open spec fn after_job_update(attempt: u32, reply: UpdateReply, exhausted: Seq<char>) -> Result<
    NextAttempt,
    ReconcileErrorView,
> {
    match reply {
        UpdateReply::Applied => Ok(NextAttempt::Done),
        UpdateReply::Failed(error) => if error@ matches KubeErrorView::Api { code, .. } && code
            == 409 {
            if attempt + 1 < UPDATE_ATTEMPTS {
                Ok(NextAttempt::Retry((attempt + 1) as u32))
            } else {
                Err(ReconcileErrorView::Other(exhausted))
            }
        } else {
            Err(ReconcileErrorView::Kube(error@))
        },
    }
}

/// The outcome of an attempt.
pub open spec fn attempted(out: Result<NextAttempt, ReconcileError>) -> Result<
    NextAttempt,
    ReconcileErrorView,
> {
    match out {
        Ok(next) => Ok(next),
        Err(error) => Err(error@),
    }
}

/// What follows the update made after `attempt` others, where `exhausted` says
/// that none is left.
pub(crate) fn follow_job_update(attempt: u32, reply: UpdateReply, exhausted: &str) -> (out: Result<
    NextAttempt,
    ReconcileError,
>)
    ensures
        attempted(out) == after_job_update(attempt, reply, exhausted@),
{
    match reply {
        UpdateReply::Applied => Ok(NextAttempt::Done),
        UpdateReply::Failed(error) => {
            let conflict = match &error {
                KubeError::Api { code, .. } => *code == 409,
                _ => false,
            };
            if conflict {
                if attempt < UPDATE_ATTEMPTS - 1 {
                    Ok(NextAttempt::Retry(attempt + 1))
                } else {
                    Err(job_error(exhausted))
                }
            } else {
                Err(ReconcileError::Kube(error))
            }
        },
    }
}

/// What follows the update that records a submission.
pub fn identity_updated(attempt: u32, reply: UpdateReply) -> (out: Result<
    NextAttempt,
    ReconcileError,
>)
    ensures
        attempted(out) == after_job_update(
            attempt,
            reply,
            "concurrent controller-identity recovery did not converge"@,
        ),
{
    follow_job_update(attempt, reply, "concurrent controller-identity recovery did not converge")
}

/// A recorded submission is never replaced: an update of the status that names a
/// submission completes what is recorded and contradicts none of it.
pub proof fn law_backfill_completes(
    fresh: SpurJobView,
    expected_token: Option<Seq<char>>,
    exact: SubmissionView,
)
    ensures
        backfilled(fresh, expected_token, exact) is Ok ==> {
            let status = status_or_empty(fresh);
            &&& status.spur_job_id matches Some(job_id) ==> job_id == exact.job_id
            &&& nonempty(status.submission_generation) matches Some(generation) ==> generation
                == exact.generation
            &&& expected_token is Some ==> status.submission_token == expected_token
        },
{
}

/// Once a submission is recorded, the same step finds it recorded.
pub proof fn law_backfill_settles(
    fresh: SpurJobView,
    expected_token: Option<Seq<char>>,
    exact: SubmissionView,
)
    requires
        backfilled(fresh, expected_token, exact) is Ok,
    ensures
        ({
            let after = SpurJobView {
                status: Some(
                    SpurJobStatusView {
                        spur_job_id: Some(exact.job_id),
                        submission_generation: Some(exact.generation),
                        ..status_or_empty(fresh)
                    },
                ),
                ..fresh
            };
            backfilled(after, expected_token, exact) == Ok::<BackfillStepView, ReconcileErrorView>(
                BackfillStepView::EnsureLabels,
            )
        }),
{
}

/// The keys of a job that is being deleted.
pub open spec fn deletion_scope(job: SpurJobView) -> Result<
    (Seq<char>, Seq<char>),
    ReconcileErrorView,
> {
    match (job.metadata.namespace, job.metadata.uid) {
        (None, _) => Err(ReconcileErrorView::Other("SpurJob has no namespace"@)),
        (_, None) => Err(
            ReconcileErrorView::Other(
                "SpurJob "@ + (match job.metadata.name {
                    Some(name) => name,
                    None => Seq::empty(),
                }) + " has no UID"@,
            ),
        ),
        (Some(namespace), Some(uid)) => Ok((namespace, uid)),
    }
}

/// The namespace and the UID of a job that is being deleted.
pub fn deleting_job(job: &SpurJob) -> (out: Result<(String, String), ReconcileError>)
    ensures
        match out {
            Ok((namespace, uid)) => deletion_scope(job@) == Ok::<
                (Seq<char>, Seq<char>),
                ReconcileErrorView,
            >((namespace@, uid@)),
            Err(error) => deletion_scope(job@) == Err::<
                (Seq<char>, Seq<char>),
                ReconcileErrorView,
            >(error@),
        },
{
    match (&job.metadata.namespace, &job.metadata.uid) {
        (None, _) => Err(job_error("SpurJob has no namespace")),
        (_, None) => {
            let name: String = match &job.metadata.name {
                Some(name) => name.clone(),
                None => String::new(),
            };
            Err(ReconcileError::Other(join3("SpurJob ", name.as_str(), " has no UID")))
        },
        (Some(namespace), Some(uid)) => Ok((namespace.clone(), uid.clone())),
    }
}

/// Which submission's objects a deletion removes, once the controller is done.
pub open spec fn deletion_fenced(fence: FenceView) -> Result<
    Option<SubmissionView>,
    ReconcileErrorView,
> {
    match fence {
        FenceView::Pending(_) => Err(ReconcileErrorView::CleanupPending),
        FenceView::Complete(exact) => Ok(exact),
    }
}

/// Which submission's objects a deletion removes. While the controller is not
/// done the deletion fails, so that the job and its records stay.
pub fn handle_deletion(fence: ControllerCleanupFence) -> (out: Result<
    Option<Submission>,
    ReconcileError,
>)
    ensures
        match out {
            Ok(exact) => deletion_fenced(fence@) == Ok::<
                Option<SubmissionView>,
                ReconcileErrorView,
            >(exact.deep_view()),
            Err(error) => deletion_fenced(fence@) == Err::<
                Option<SubmissionView>,
                ReconcileErrorView,
            >(error@),
        },
{
    match fence {
        ControllerCleanupFence::Pending(_) => Err(ReconcileError::CleanupPending),
        ControllerCleanupFence::Complete(exact) => Ok(exact),
    }
}

/// A job is let go only once the controller has said that its cleanup is
/// complete, about the submission that the job records.
pub proof fn law_deletion_waits_for_the_controller(
    status: SpurJobStatusView,
    response: CancelByTokenResponseView,
)
    ensures
        fenced_by_token(status, response) matches Ok(fence) ==> {
            &&& deletion_fenced(fence) is Ok ==> response.cleanup_complete
            &&& status.spur_job_id matches Some(job_id) ==> fence.exact_submission() matches Some(
                exact,
            ) && exact.job_id == job_id
            &&& exact_submission(status) is Some ==> fence.exact_submission() == exact_submission(
                status,
            )
        },
{
}

/// Whether an object belongs to a job.
pub fn resource_owned_by(metadata: &crate::k8s::ObjectMeta, owner_uid: &str) -> (yes: bool)
    ensures
        yes == controlled_by(metadata@, owner_uid@),
{
    resource_has_controller_owner(metadata, owner_uid)
}

/// Whether a service was created for a submission.
pub open spec fn service_of_submission(
    service: ServiceView,
    job_id: u32,
    generation: Seq<char>,
    submission_token: Option<Seq<char>>,
) -> bool {
    let meta = service.metadata;
    &&& lookup_opt(meta.labels, JOB_ID_LABEL@) == Some(decimal(job_id as nat))
    &&& lookup_opt(meta.annotations, SUBMISSION_GENERATION_ANNOTATION@) == Some(generation)
    &&& nonempty(submission_token) matches Some(token) ==> lookup_opt(
        meta.annotations,
        SUBMISSION_TOKEN_ANNOTATION@,
    ) == Some(token)
}

/// Whether a service was created for a submission.
pub fn service_matches_submission(
    service: &Service,
    job_id: u32,
    generation: &str,
    submission_token: &Option<String>,
) -> (yes: bool)
    ensures
        yes == service_of_submission(service@, job_id, generation@, submission_token.deep_view()),
{
    let token_agrees = match submission_token {
        Some(token) => is_blank(token) || holds(
            get_opt(&service.metadata.annotations, SUBMISSION_TOKEN_ANNOTATION),
            token,
        ),
        None => true,
    };
    holds(get_opt(&service.metadata.labels, JOB_ID_LABEL), &u32_text(job_id)) && holds(
        get_opt(&service.metadata.annotations, SUBMISSION_GENERATION_ANNOTATION),
        &generation.to_owned(),
    ) && token_agrees
}

/// Whether a pod was created for a submission.
pub open spec fn pod_of_submission(pod: PodView, exact: SubmissionView) -> bool {
    carried_identity(pod.metadata) matches Ok(identity) && identity.key.job_id == exact.job_id
        && identity.key.submission_generation == exact.generation
}

/// Whether a pod was created for a submission.
pub fn pod_matches_submission(pod: &Pod, job_id: u32, generation: &str) -> (yes: bool)
    ensures
        yes == pod_of_submission(pod@, (SubmissionView { job_id, generation: generation@ })),
{
    match PodExecutionIdentity::from_pod(pod) {
        Ok(identity) => identity.key.job_id == job_id && same_text(
            identity.key.submission_generation.as_str(),
            generation,
        ),
        Err(_) => false,
    }
}

/// How an object with this UID is removed.
pub fn uid_delete_params(uid: String, immediate: bool) -> (out: DeleteParams)
    ensures
        out@ == (DeleteParamsView {
            grace_period_seconds: if immediate {
                Some(0)
            } else {
                None
            },
            preconditions: Some(PreconditionsView { uid: Some(uid@), resource_version: None }),
        }),
{
    DeleteParams {
        grace_period_seconds: if immediate {
            Some(0)
        } else {
            None
        },
        preconditions: Some(Preconditions { uid: Some(uid), resource_version: None }),
    }
}

/// What a job recorded about the objects created for it.
struct Recorded<'a> {
    uids: &'a StrMap,
    dispatch_tokens: &'a StrMap,
    submission_token: &'a Option<String>,
}

/// What a job recorded about the objects created for it.
#[verifier::ext_equal]
pub struct RecordedView {
    pub uids: Map<Seq<char>, Seq<char>>,
    pub dispatch_tokens: Map<Seq<char>, Seq<char>>,
    pub submission_token: Option<Seq<char>>,
}

impl<'a> View for Recorded<'a> {
    type V = RecordedView;

    closed spec fn view(&self) -> RecordedView {
        RecordedView {
            uids: self.uids@,
            dispatch_tokens: self.dispatch_tokens@,
            submission_token: self.submission_token.deep_view(),
        }
    }
}

/// Whether a pod is removed with its job: the job owns it and recorded its UID,
/// or recorded no UID but the token that the pod carries; and it was created for
/// the submission that is being ended, where one is.
pub open spec fn pod_is_removed(
    pod: PodView,
    owner_uid: Seq<char>,
    recorded: RecordedView,
    exact: Option<SubmissionView>,
) -> bool {
    let meta = pod.metadata;
    &&& controlled_by(meta, owner_uid)
    &&& meta.name is Some
    &&& meta.uid is Some
    &&& {
        let known = lookup(recorded.uids, meta.name->0);
        ||| known == meta.uid
        ||| {
            &&& known is None
            &&& carried_identity(meta) matches Ok(identity)
            &&& identity.pod_dispatch_token.len() > 0
            &&& lookup(recorded.dispatch_tokens, meta.name->0) == Some(identity.pod_dispatch_token)
            &&& nonempty(recorded.submission_token) == Some(identity.submission_token)
        }
    }
    &&& exact matches Some(submission) ==> pod_of_submission(pod, submission)
}

fn removes_pod(
    pod: &Pod,
    owner_uid: &str,
    recorded: &Recorded,
    exact: &Option<Submission>,
) -> (yes: bool)
    ensures
        yes == pod_is_removed(pod@, owner_uid@, recorded@, exact.deep_view()),
{
    if !resource_owned_by(&pod.metadata, owner_uid) {
        return false;
    }
    let name = match &pod.metadata.name {
        Some(name) => name,
        None => return false,
    };
    let uid = match &pod.metadata.uid {
        Some(uid) => uid,
        None => return false,
    };
    let bound = match recorded.uids.get(name.as_str()) {
        Some(known) => *known == *uid,
        None => match PodExecutionIdentity::from_pod(pod) {
            Err(_) => false,
            Ok(identity) => !is_blank(&identity.pod_dispatch_token) && holds(
                recorded.dispatch_tokens.get(name.as_str()),
                &identity.pod_dispatch_token,
            ) && (match recorded.submission_token {
                Some(token) => !is_blank(token) && *token == identity.submission_token,
                None => false,
            }),
        },
    };
    if !bound {
        return false;
    }
    match exact {
        Some(submission) => pod_matches_submission(
            pod,
            submission.job_id,
            submission.generation.as_str(),
        ),
        None => true,
    }
}

/// The names and UIDs of the pods that are removed, in the order of the list.
pub open spec fn pods_removed(
    pods: Seq<PodView>,
    owner_uid: Seq<char>,
    recorded: RecordedView,
    exact: Option<SubmissionView>,
) -> Seq<NamedUidView>
    decreases pods.len(),
{
    if pods.len() == 0 {
        Seq::empty()
    } else {
        let before = pods_removed(pods.drop_last(), owner_uid, recorded, exact);
        let pod = pods.last();
        if pod_is_removed(pod, owner_uid, recorded, exact) {
            before.push(NamedUidView { name: pod.metadata.name->0, uid: pod.metadata.uid->0 })
        } else {
            before
        }
    }
}

/// The names and UIDs of the pods that are removed, in the order of the list.
pub fn exact_pod_deletions(
    pods: &Vec<Pod>,
    owner_uid: &str,
    recorded_uids: &StrMap,
    dispatch_tokens: &StrMap,
    submission_token: &Option<String>,
    exact: &Option<Submission>,
) -> (out: Vec<NamedUid>)
    ensures
        out.deep_view() == pods_removed(
            pods.deep_view(),
            owner_uid@,
            (RecordedView {
                uids: recorded_uids@,
                dispatch_tokens: dispatch_tokens@,
                submission_token: submission_token.deep_view(),
            }),
            exact.deep_view(),
        ),
{
    let recorded = Recorded { uids: recorded_uids, dispatch_tokens, submission_token };
    let ghost items = pods.deep_view();
    let mut out: Vec<NamedUid> = Vec::new();
    let mut i: usize = 0;
    proof {
        assert(items.take(0) =~= Seq::<PodView>::empty());
        assert(out.deep_view() =~= Seq::<NamedUidView>::empty());
    }
    while i < pods.len()
        invariant
            i <= pods@.len(),
            items == pods.deep_view(),
            out.deep_view() == pods_removed(
                items.take(i as int),
                owner_uid@,
                recorded@,
                exact.deep_view(),
            ),
        decreases pods@.len() - i,
    {
        let pod = &pods[i];
        proof {
            assert(items.take(i + 1).drop_last() =~= items.take(i as int));
            assert(items.take(i + 1).last() == pod@);
        }
        if removes_pod(pod, owner_uid, &recorded, exact) {
            if let (Some(name), Some(uid)) = (&pod.metadata.name, &pod.metadata.uid) {
                let ghost before = out.deep_view();
                let entry = NamedUid { name: name.clone(), uid: uid.clone() };
                out.push(entry);
                proof {
                    assert(out.deep_view() =~= before.push(entry@));
                }
            }
        }
        i = i + 1;
    }
    proof {
        assert(items.take(i as int) =~= items);
    }
    out
}

/// Whether a service is removed with its job.
pub open spec fn service_is_removed(
    service: ServiceView,
    owner_uid: Seq<char>,
    recorded: RecordedView,
    exact: SubmissionView,
) -> bool {
    let meta = service.metadata;
    &&& controlled_by(meta, owner_uid)
    &&& service_of_submission(service, exact.job_id, exact.generation, recorded.submission_token)
    &&& meta.name is Some
    &&& meta.uid is Some
    &&& {
        let known = lookup(recorded.uids, meta.name->0);
        ||| known == meta.uid
        ||| {
            &&& known is None
            &&& nonempty(lookup_opt(meta.annotations, SERVICE_DISPATCH_TOKEN_ANNOTATION@)) matches Some(
                token,
            )
            &&& lookup(recorded.dispatch_tokens, meta.name->0) == Some(token)
        }
    }
}

fn removes_service(
    service: &Service,
    owner_uid: &str,
    recorded: &Recorded,
    exact: &Submission,
) -> (yes: bool)
    ensures
        yes == service_is_removed(service@, owner_uid@, recorded@, exact@),
{
    if !resource_owned_by(&service.metadata, owner_uid) || !service_matches_submission(
        service,
        exact.job_id,
        exact.generation.as_str(),
        recorded.submission_token,
    ) {
        return false;
    }
    let name = match &service.metadata.name {
        Some(name) => name,
        None => return false,
    };
    let uid = match &service.metadata.uid {
        Some(uid) => uid,
        None => return false,
    };
    match recorded.uids.get(name.as_str()) {
        Some(known) => *known == *uid,
        None => match get_opt(&service.metadata.annotations, SERVICE_DISPATCH_TOKEN_ANNOTATION) {
            Some(token) => !is_blank(token) && holds(
                recorded.dispatch_tokens.get(name.as_str()),
                token,
            ),
            None => false,
        },
    }
}

/// The names and UIDs of the services that are removed, in the order of the
/// list.
pub open spec fn services_removed(
    services: Seq<ServiceView>,
    owner_uid: Seq<char>,
    recorded: RecordedView,
    exact: SubmissionView,
) -> Seq<NamedUidView>
    decreases services.len(),
{
    if services.len() == 0 {
        Seq::empty()
    } else {
        let before = services_removed(services.drop_last(), owner_uid, recorded, exact);
        let service = services.last();
        if service_is_removed(service, owner_uid, recorded, exact) {
            before.push(
                NamedUidView { name: service.metadata.name->0, uid: service.metadata.uid->0 },
            )
        } else {
            before
        }
    }
}

/// The names and UIDs of the services that are removed, in the order of the
/// list.
pub fn exact_service_deletions(
    services: &Vec<Service>,
    exact: &Submission,
    owner_uid: &str,
    recorded_uids: &StrMap,
    dispatch_tokens: &StrMap,
    submission_token: &Option<String>,
) -> (out: Vec<NamedUid>)
    ensures
        out.deep_view() == services_removed(
            services.deep_view(),
            owner_uid@,
            (RecordedView {
                uids: recorded_uids@,
                dispatch_tokens: dispatch_tokens@,
                submission_token: submission_token.deep_view(),
            }),
            exact@,
        ),
{
    let recorded = Recorded { uids: recorded_uids, dispatch_tokens, submission_token };
    let ghost items = services.deep_view();
    let mut out: Vec<NamedUid> = Vec::new();
    let mut i: usize = 0;
    proof {
        assert(items.take(0) =~= Seq::<ServiceView>::empty());
        assert(out.deep_view() =~= Seq::<NamedUidView>::empty());
    }
    while i < services.len()
        invariant
            i <= services@.len(),
            items == services.deep_view(),
            out.deep_view() == services_removed(
                items.take(i as int),
                owner_uid@,
                recorded@,
                exact@,
            ),
        decreases services@.len() - i,
    {
        let service = &services[i];
        proof {
            assert(items.take(i + 1).drop_last() =~= items.take(i as int));
            assert(items.take(i + 1).last() == service@);
        }
        if removes_service(service, owner_uid, &recorded, exact) {
            if let (Some(name), Some(uid)) = (&service.metadata.name, &service.metadata.uid) {
                let ghost before = out.deep_view();
                let entry = NamedUid { name: name.clone(), uid: uid.clone() };
                out.push(entry);
                proof {
                    assert(out.deep_view() =~= before.push(entry@));
                }
            }
        }
        i = i + 1;
    }
    proof {
        assert(items.take(i as int) =~= items);
    }
    out
}

/// The selector of the objects among which those of a job are looked for.
pub open spec fn removal_scope(exact: Option<SubmissionView>) -> Seq<char> {
    match exact {
        None => MANAGED_SELECTOR@,
        Some(submission) => selector_of_job(submission.job_id),
    }
}

/// The selector of the objects among which those of a job are looked for.
pub fn removal_selector(exact: &Option<Submission>) -> (out: String)
    ensures
        out@ == removal_scope(exact.deep_view()),
{
    match exact {
        None => MANAGED_SELECTOR.to_owned(),
        Some(submission) => job_selector(submission.job_id),
    }
}

/// One round of removing a job's objects: what to remove, with how.
#[derive(Debug)]
pub struct RemovalRound {
    pub pods: Vec<NamedUid>,
    pub services: Vec<NamedUid>,
}

impl RemovalRound {
    /// Whether nothing is left to remove.
    pub open spec fn nothing_left(&self) -> bool {
        self.pods@.len() == 0 && self.services@.len() == 0
    }

    /// Whether nothing is left to remove.
    pub fn is_done(&self) -> (done: bool)
        ensures
            done == self.nothing_left(),
    {
        self.pods.len() == 0 && self.services.len() == 0
    }
}

/// What a round removes, of the pods and services that are listed. Without a
/// submission no service is removed.
pub fn delete_owned_submission_resources(
    owner_uid: &str,
    status: &SpurJobStatus,
    exact: &Option<Submission>,
    pods: &Vec<Pod>,
    services: &Vec<Service>,
) -> (out: RemovalRound)
    ensures
        out.pods.deep_view() == pods_removed(
            pods.deep_view(),
            owner_uid@,
            (RecordedView {
                uids: status@.pod_uids,
                dispatch_tokens: status@.pod_dispatch_tokens,
                submission_token: status@.submission_token,
            }),
            exact.deep_view(),
        ),
        out.services.deep_view() == match exact {
            Some(submission) => services_removed(
                services.deep_view(),
                owner_uid@,
                (RecordedView {
                    uids: status@.service_uids,
                    dispatch_tokens: status@.service_dispatch_tokens,
                    submission_token: status@.submission_token,
                }),
                submission@,
            ),
            None => Seq::<NamedUidView>::empty(),
        },
{
    let removed_pods = exact_pod_deletions(
        pods,
        owner_uid,
        &status.pod_uids,
        &status.pod_dispatch_tokens,
        &status.submission_token,
        exact,
    );
    let removed_services: Vec<NamedUid> = match exact {
        Some(submission) => exact_service_deletions(
            services,
            submission,
            owner_uid,
            &status.service_uids,
            &status.service_dispatch_tokens,
            &status.submission_token,
        ),
        None => {
            let none: Vec<NamedUid> = Vec::new();
            proof {
                assert(none.deep_view() =~= Seq::<NamedUidView>::empty());
            }
            none
        },
    };
    RemovalRound { pods: removed_pods, services: removed_services }
}

/// Whether a failed removal means that the object is gone, or that its name is
/// now another object's.
pub fn removal_is_moot(error: &KubeError) -> (yes: bool)
    ensures
        yes == (error@ matches KubeErrorView::Api { code, .. } && (code == 404 || code == 409)),
{
    match error {
        KubeError::Api { code, .. } => *code == 404 || *code == 409,
        _ => false,
    }
}

/// The error of a removal that took too long.
pub fn removal_timed_out(owner_uid: &str) -> (out: ReconcileError)
    ensures
        out@ == ReconcileErrorView::Other(
            "timed out deleting resources owned by SpurJob UID "@ + owner_uid@,
        ),
{
    ReconcileError::Other(join2("timed out deleting resources owned by SpurJob UID ", owner_uid))
}

proof fn lemma_pods_removed(
    pods: Seq<PodView>,
    owner_uid: Seq<char>,
    recorded: RecordedView,
    exact: Option<SubmissionView>,
    removed: NamedUidView,
)
    requires
        pods_removed(pods, owner_uid, recorded, exact).contains(removed),
    ensures
        exists|i: int|
            0 <= i < pods.len() && pod_is_removed(#[trigger] pods[i], owner_uid, recorded, exact)
                && pods[i].metadata.name == Some(removed.name) && pods[i].metadata.uid == Some(
                removed.uid,
            ),
    decreases pods.len(),
{
    if pods.len() > 0 {
        let before = pods_removed(pods.drop_last(), owner_uid, recorded, exact);
        let all = pods_removed(pods, owner_uid, recorded, exact);
        let at = choose|at: int| 0 <= at < all.len() && all[at] == removed;
        if at < before.len() {
            assert(before[at] == removed);
            lemma_pods_removed(pods.drop_last(), owner_uid, recorded, exact, removed);
            let i = choose|i: int|
                0 <= i < pods.drop_last().len() && pod_is_removed(
                    #[trigger] pods.drop_last()[i],
                    owner_uid,
                    recorded,
                    exact,
                ) && pods.drop_last()[i].metadata.name == Some(removed.name)
                    && pods.drop_last()[i].metadata.uid == Some(removed.uid);
            assert(pods[i] == pods.drop_last()[i]);
        } else {
            assert(pods[pods.len() - 1] == pods.last());
        }
    }
}

/// A pod that replaced a recorded one under its name is spared: what is removed
/// under a recorded name has the recorded UID, and belongs to the submission that
/// is being ended.
pub proof fn law_replacements_are_spared(
    pods: Seq<PodView>,
    owner_uid: Seq<char>,
    recorded: RecordedView,
    exact: Option<SubmissionView>,
    removed: NamedUidView,
)
    requires
        pods_removed(pods, owner_uid, recorded, exact).contains(removed),
    ensures
        lookup(recorded.uids, removed.name) matches Some(uid) ==> uid == removed.uid,
        exists|i: int|
            0 <= i < pods.len() && (#[trigger] pods[i]).metadata.uid == Some(removed.uid)
                && controlled_by(pods[i].metadata, owner_uid) && (exact matches Some(submission)
                ==> pod_of_submission(pods[i], submission)),
{
    lemma_pods_removed(pods, owner_uid, recorded, exact, removed);
}

/// The controller is asked by the token where there is one, by the identity
/// where that is known in full, and not at all for a job never submitted.
pub proof fn law_fence_is_asked_by_the_best_name(status: SpurJobStatusView)
    ensures
        ({
            let has_token = status.submission_token is Some && (
            status.submission_token->0).len() > 0;
            let has_identity = status.spur_job_id is Some && status.submission_generation is Some
                && (status.submission_generation->0).len() > 0;
            &&& has_token ==> fence_asked(status) == FenceRequestView::ByToken(
                status.submission_token->0,
            )
            &&& !has_token && has_identity ==> fence_asked(status) == FenceRequestView::ByIdentity(
                SubmissionView {
                    job_id: status.spur_job_id->0,
                    generation: status.submission_generation->0,
                },
            )
            &&& !has_token && !has_identity ==> fence_asked(status) is Nothing
        }),
{
}

/// An answer by token is taken only where it agrees with what the job knows of
/// itself; it is complete where the controller says that nothing is left, and
/// carries the submission that the controller named.
pub proof fn law_answer_by_token_agrees_with_the_job(
    status: SpurJobStatusView,
    response: CancelByTokenResponseView,
)
    ensures
        ({
            let named = response.job_id != 0 && response.submission_generation.len() > 0;
            let unnamed = response.job_id == 0 && response.submission_generation.len() == 0;
            let knows_id = status.spur_job_id is Some;
            let knows_generation = status.submission_generation is Some && (
            status.submission_generation->0).len() > 0;
            let fence = fenced_by_token(status, response);
            &&& fence is Ok <==> (unnamed && !knows_id && !knows_generation) || (named && (knows_id
                ==> status.spur_job_id->0 == response.job_id) && (knows_generation
                ==> status.submission_generation->0 == response.submission_generation))
            &&& fence is Ok ==> (fence->Ok_0 is Complete <==> response.cleanup_complete)
            &&& fence is Ok && named ==> (fence->Ok_0).exact_submission() == Some(
                SubmissionView {
                    job_id: response.job_id,
                    generation: response.submission_generation,
                },
            )
            &&& fence is Ok && unnamed ==> (fence->Ok_0).exact_submission() is None
        }),
{
}

/// A job asked after by its identity is cleaned up where the controller does not
/// know it any more, or knows another submission by its number.
pub proof fn law_answer_by_identity_is_about_that_submission(
    exact: SubmissionView,
    reply: Result<JobInfoView, StatusView>,
)
    ensures
        ({
            let gone = reply is Err && (reply->Err_0).code == Code::NotFound;
            let replaced = reply is Ok && (reply->Ok_0).submission_generation != exact.generation;
            let fence = fenced_by_identity(exact, reply);
            &&& fence is Ok <==> gone || reply is Ok
            &&& fence is Ok ==> (fence->Ok_0).exact_submission() == Some(exact)
            &&& fence is Ok ==> (fence->Ok_0 is Complete <==> gone || replaced)
            &&& fence is Err ==> fence->Err_0 == ReconcileErrorView::Grpc(reply->Err_0)
        }),
{
}

/// A job is let go only where the fence is complete.
pub proof fn law_deletion_is_fenced(fence: FenceView)
    ensures
        deletion_fenced(fence) is Ok <==> fence is Complete,
        deletion_fenced(fence) matches Ok(exact) ==> exact == fence.exact_submission(),
        fence is Pending ==> deletion_fenced(fence)->Err_0 is CleanupPending,
{
}

/// What a recovered identity is recorded with is the identity itself, in the job
/// as it was read; nothing is written where it stands there.
pub proof fn law_backfill_records_the_identity(
    fresh: SpurJobView,
    expected_token: Option<Seq<char>>,
    exact: SubmissionView,
)
    ensures
        backfilled(fresh, expected_token, exact) matches Ok(step) ==> {
            let there = fresh.status is Some && (fresh.status->0).spur_job_id == Some(exact.job_id)
                && (fresh.status->0).submission_generation == Some(exact.generation);
            &&& there <==> step is EnsureLabels
            &&& !there ==> step is Persist && step->Persist_0.job_id == exact.job_id
                && step->Persist_0.submission_generation == exact.generation
                && fresh.metadata.resource_version == Some(step->Persist_0.resource_version)
        },
        fresh.status is None && expected_token is None && fresh.metadata.resource_version is Some
            ==> backfilled(fresh, expected_token, exact) is Ok,
        fresh.status is Some && (fresh.status->0).spur_job_id is None && (
        fresh.status->0).submission_generation is None && (expected_token is Some ==> (
        fresh.status->0).submission_token == expected_token)
            && fresh.metadata.resource_version is Some ==> backfilled(
            fresh,
            expected_token,
            exact,
        ) is Ok,
{
}

/// An update that lost a race is decided anew, up to eight times in all; any
/// other failure is passed on.
pub proof fn law_lost_updates_are_run_again(attempt: u32, error: KubeError, exhausted: Seq<char>)
    ensures
        after_job_update(attempt, UpdateReply::Applied, exhausted) == Ok::<
            NextAttempt,
            ReconcileErrorView,
        >(NextAttempt::Done),
        ({
            let lost = error@ is Api && error@->code == 409;
            let next = after_job_update(attempt, UpdateReply::Failed(error), exhausted);
            &&& lost && attempt < 7 ==> next == Ok::<NextAttempt, ReconcileErrorView>(
                NextAttempt::Retry((attempt + 1) as u32),
            )
            &&& lost && attempt >= 7 ==> next == Err::<NextAttempt, ReconcileErrorView>(
                ReconcileErrorView::Other(exhausted),
            )
            &&& !lost ==> next == Err::<NextAttempt, ReconcileErrorView>(
                ReconcileErrorView::Kube(error@),
            )
        }),
{
}

/// A pod is removed with a deleted job exactly where the job controls it, and
/// either has its UID on record, or has none on record for its name and knows the
/// two tokens that the pod carries; within a submission, only pods of it are.
pub proof fn law_removed_pod_is_the_jobs_own(
    pod: PodView,
    owner_uid: Seq<char>,
    recorded: RecordedView,
    exact: Option<SubmissionView>,
)
    ensures
        ({
            let meta = pod.metadata;
            let known = recorded.uids.contains_key(meta.name->0);
            let carried = carried_identity(meta);
            let removed = pod_is_removed(pod, owner_uid, recorded, exact);
            &&& removed ==> has_controller(meta, owner_uid) && meta.name is Some
                && meta.uid is Some
            &&& removed && known ==> recorded.uids[meta.name->0] == meta.uid->0
            &&& removed && !known ==> carried is Ok && (carried->Ok_0).pod_dispatch_token.len() > 0
                && recorded.dispatch_tokens.contains_key(meta.name->0)
                && recorded.dispatch_tokens[meta.name->0] == (carried->Ok_0).pod_dispatch_token
                && (carried->Ok_0).submission_token.len() > 0 && recorded.submission_token == Some(
                (carried->Ok_0).submission_token,
            )
            &&& removed && exact is Some ==> carried is Ok && (carried->Ok_0).key.job_id
                == (exact->0).job_id && (carried->Ok_0).key.submission_generation == (
            exact->0).generation
            &&& has_controller(meta, owner_uid) && meta.name is Some && meta.uid is Some && known
                && recorded.uids[meta.name->0] == meta.uid->0 && exact is None ==> removed
            &&& has_controller(meta, owner_uid) && meta.name is Some && meta.uid is Some && !known
                && carried is Ok && (carried->Ok_0).pod_dispatch_token.len() > 0
                && recorded.dispatch_tokens.contains_key(meta.name->0)
                && recorded.dispatch_tokens[meta.name->0] == (carried->Ok_0).pod_dispatch_token
                && (carried->Ok_0).submission_token.len() > 0 && recorded.submission_token == Some(
                (carried->Ok_0).submission_token,
            ) && (exact is Some ==> (carried->Ok_0).key.job_id == (exact->0).job_id && (
            carried->Ok_0).key.submission_generation == (exact->0).generation) ==> removed
        }),
{
    law_only_controllers_own(pod.metadata, owner_uid);
}

/// A service is removed with a deleted job in the same way.
pub proof fn law_removed_service_is_the_jobs_own(
    service: ServiceView,
    owner_uid: Seq<char>,
    recorded: RecordedView,
    exact: SubmissionView,
)
    requires
        service.metadata.labels is Some && service.metadata.annotations is Some,
    ensures
        ({
            let meta = service.metadata;
            let labels = meta.labels->0;
            let annotations = meta.annotations->0;
            let known = recorded.uids.contains_key(meta.name->0);
            let needs_token = recorded.submission_token is Some && (
            recorded.submission_token->0).len() > 0;
            let named = labels.contains_key(JOB_ID_LABEL@) && labels[JOB_ID_LABEL@] == decimal(
                exact.job_id as nat,
            ) && annotations.contains_key(SUBMISSION_GENERATION_ANNOTATION@)
                && annotations[SUBMISSION_GENERATION_ANNOTATION@] == exact.generation && (
            needs_token ==> annotations.contains_key(SUBMISSION_TOKEN_ANNOTATION@)
                && annotations[SUBMISSION_TOKEN_ANNOTATION@] == recorded.submission_token->0);
            let dispatched = annotations.contains_key(SERVICE_DISPATCH_TOKEN_ANNOTATION@)
                && annotations[SERVICE_DISPATCH_TOKEN_ANNOTATION@].len() > 0
                && recorded.dispatch_tokens.contains_key(meta.name->0)
                && recorded.dispatch_tokens[meta.name->0]
                == annotations[SERVICE_DISPATCH_TOKEN_ANNOTATION@];
            service_is_removed(service, owner_uid, recorded, exact) <==> has_controller(
                meta,
                owner_uid,
            ) && meta.name is Some && meta.uid is Some && named && (if known {
                recorded.uids[meta.name->0] == meta.uid->0
            } else {
                dispatched
            })
        }),
{
    law_only_controllers_own(service.metadata, owner_uid);
}

/// Every pod to remove is in the list, under its own name and UID.
pub proof fn law_all_own_pods_are_removed(
    pods: Seq<PodView>,
    owner_uid: Seq<char>,
    recorded: RecordedView,
    exact: Option<SubmissionView>,
    i: int,
)
    requires
        0 <= i < pods.len(),
        pod_is_removed(pods[i], owner_uid, recorded, exact),
    ensures
        pods_removed(pods, owner_uid, recorded, exact).contains(
            NamedUidView { name: pods[i].metadata.name->0, uid: pods[i].metadata.uid->0 },
        ),
    decreases pods.len(),
{
    let init = pods.drop_last();
    let out = pods_removed(pods, owner_uid, recorded, exact);
    let before = pods_removed(init, owner_uid, recorded, exact);
    let want = NamedUidView { name: pods[i].metadata.name->0, uid: pods[i].metadata.uid->0 };
    if i < init.len() {
        assert(init[i] == pods[i]);
        law_all_own_pods_are_removed(init, owner_uid, recorded, exact, i);
        let j = choose|j: int| 0 <= j < before.len() && before[j] == want;
        assert(out[j] == want);
    } else {
        assert(out[before.len() as int] == want);
    }
}

/// Whether `item` is the name and UID of a service to remove.
pub open spec fn is_one_to_remove(
    services: Seq<ServiceView>,
    owner_uid: Seq<char>,
    recorded: RecordedView,
    exact: SubmissionView,
    item: NamedUidView,
) -> bool {
    exists|i: int|
        0 <= i < services.len() && service_is_removed(
            #[trigger] services[i],
            owner_uid,
            recorded,
            exact,
        ) && services[i].metadata.name == Some(item.name) && services[i].metadata.uid == Some(
            item.uid,
        )
}

/// Every service to remove is in the list, under its own name and UID, and the
/// list holds nothing else.
pub proof fn law_own_services_alone_are_removed(
    services: Seq<ServiceView>,
    owner_uid: Seq<char>,
    recorded: RecordedView,
    exact: SubmissionView,
    item: NamedUidView,
)
    ensures
        services_removed(services, owner_uid, recorded, exact).contains(item) <==> is_one_to_remove(
            services,
            owner_uid,
            recorded,
            exact,
            item,
        ),
    decreases services.len(),
{
    if services.len() > 0 {
        let init = services.drop_last();
        let out = services_removed(services, owner_uid, recorded, exact);
        let before = services_removed(init, owner_uid, recorded, exact);
        law_own_services_alone_are_removed(init, owner_uid, recorded, exact, item);
        if out.contains(item) {
            let j = choose|j: int| 0 <= j < out.len() && out[j] == item;
            if j < before.len() {
                assert(before[j] == item);
                let i = choose|i: int|
                    0 <= i < init.len() && service_is_removed(
                        #[trigger] init[i],
                        owner_uid,
                        recorded,
                        exact,
                    ) && init[i].metadata.name == Some(item.name) && init[i].metadata.uid == Some(
                        item.uid,
                    );
                assert(services[i] == init[i]);
            } else {
                assert(services[services.len() - 1] == services.last());
            }
        }
        if is_one_to_remove(services, owner_uid, recorded, exact, item) {
            let i = choose|i: int|
                0 <= i < services.len() && service_is_removed(
                    #[trigger] services[i],
                    owner_uid,
                    recorded,
                    exact,
                ) && services[i].metadata.name == Some(item.name) && services[i].metadata.uid
                    == Some(item.uid);
            if i < init.len() {
                assert(init[i] == services[i]);
                let j = choose|j: int| 0 <= j < before.len() && before[j] == item;
                assert(out[j] == item);
            } else {
                assert(out[before.len() as int] == item);
            }
        }
    }
}

/// Removal looks at one job's objects where the job is known, and otherwise at
/// all that are managed; a deleted job is looked for in its own namespace.
pub proof fn law_removal_looks_where_the_objects_are(job: SpurJobView, exact: SubmissionView)
    ensures
        removal_scope(Some(exact)) == selector_of_job(exact.job_id),
        removal_scope(None) == MANAGED_SELECTOR@,
        deletion_scope(job) is Ok <==> job.metadata.namespace is Some && job.metadata.uid is Some,
        deletion_scope(job) matches Ok(scope) ==> job.metadata.namespace == Some(scope.0)
            && job.metadata.uid == Some(scope.1),
{
}

/// A removal is over when there is neither a pod nor a service left to remove.
pub proof fn law_removal_ends_with_the_last_object(round: RemovalRound)
    ensures
        round.nothing_left() <==> round.pods@ == Seq::<NamedUid>::empty() && round.services@ == Seq::<
            NamedUid,
        >::empty(),
{
    if round.nothing_left() {
        assert(round.pods@ =~= Seq::<NamedUid>::empty());
        assert(round.services@ =~= Seq::<NamedUid>::empty());
    }
}

} // verus!
