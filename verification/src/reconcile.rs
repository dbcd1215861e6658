//! What the job controller may meet and what it does next.

use vstd::prelude::*;
use crate::crd::{SpurJob, SpurJobView};
use crate::execution_identity::{
    get_opt, holds, lookup_opt, JOB_ID_LABEL, SUBMISSION_GENERATION_LABEL,
};
use crate::plain::Plain;
use crate::status::{Status, StatusView};
use crate::strmap::StrMap;
use crate::text::{decimal, join2, join3, same_text, u32_text, u64_text};

verus! {

/// The finalizer that keeps a job until its objects are removed.
pub const FINALIZER: &'static str = "spur.amd.com/cleanup";

/// How long the controller waits after an error, in seconds.
pub const MAX_BACKOFF_SECS: u64 = 60;

/// How long the update of a job's labels may take, in seconds.
pub const LABEL_PATCH_BUDGET_SECS: u64 = 3;

/// The shortest and the longest pause between two tries of it, in milliseconds.
pub const LABEL_PATCH_MIN_DELAY_MILLIS: u64 = 200;

pub const LABEL_PATCH_MAX_DELAY_MILLIS: u64 = 1000;

/// Who applies the status of a job.
pub const FIELD_MANAGER: &'static str = "spur-k8s-operator";

/// What a request to the cluster met.
#[derive(Clone, Debug, PartialEq, Eq)]
pub enum KubeError {
    /// The cluster refused it.
    Api { code: u16, reason: String, message: String },
    /// It did not get through.
    Transport(String),
    /// Something else went wrong.
    Other(String),
}

/// What a [`KubeError`] holds.
pub enum KubeErrorView {
    Api { code: u16, reason: Seq<char>, message: Seq<char> },
    Transport(Seq<char>),
    Other(Seq<char>),
}

impl View for KubeError {
    type V = KubeErrorView;

    open spec fn view(&self) -> KubeErrorView {
        match self {
            KubeError::Api { code, reason, message } => KubeErrorView::Api {
                code: *code,
                reason: reason@,
                message: message@,
            },
            KubeError::Transport(message) => KubeErrorView::Transport(message@),
            KubeError::Other(message) => KubeErrorView::Other(message@),
        }
    }
}

/// `Status::is_conflict` tells whether the cluster's reason for a refusal is that
/// of an update conflict. As that reason is one the client knows, the code plays
/// no part.
#[verifier::external_body]
fn is_conflict(code: u16, reason: &str) -> (yes: bool)
    ensures
        yes == (reason@ == "Conflict"@),
{
    let status = kube::core::Status { code, reason: reason.to_owned(), ..Default::default() };
    status.is_conflict()
}

/// Whether a failed request is worth another try.
pub open spec fn transient(error: KubeErrorView) -> bool {
    match error {
        KubeErrorView::Api { code, reason, .. } => reason == "Conflict"@ || code == 429 || code
            == 503 || code == 504,
        KubeErrorView::Transport(_) => true,
        KubeErrorView::Other(_) => false,
    }
}

/// Whether a failed request is worth another try.
pub fn is_transient_kube_error(error: &KubeError) -> (yes: bool)
    ensures
        yes == transient(error@),
{
    match error {
        KubeError::Api { code, reason, .. } => is_conflict(*code, reason.as_str()) || *code == 429
            || *code == 503 || *code == 504,
        KubeError::Transport(_) => true,
        KubeError::Other(_) => false,
    }
}

/// Why a job could not be reconciled.
#[derive(Clone, Debug, PartialEq, Eq)]
pub enum ReconcileError {
    /// The controller refused a request.
    Grpc(Status),
    /// The cluster did.
    Kube(KubeError),
    /// The job itself does not allow it.
    Other(String),
    /// The controller still has to clean up.
    CleanupPending,
}

/// What a [`ReconcileError`] holds.
pub enum ReconcileErrorView {
    Grpc(StatusView),
    Kube(KubeErrorView),
    Other(Seq<char>),
    CleanupPending,
}

impl View for ReconcileError {
    type V = ReconcileErrorView;

    open spec fn view(&self) -> ReconcileErrorView {
        match self {
            ReconcileError::Grpc(status) => ReconcileErrorView::Grpc(status@),
            ReconcileError::Kube(error) => ReconcileErrorView::Kube(error@),
            ReconcileError::Other(message) => ReconcileErrorView::Other(message@),
            ReconcileError::CleanupPending => ReconcileErrorView::CleanupPending,
        }
    }
}

/// The value of an outcome, by its view, or the error.
pub open spec fn reconciled<T: View>(outcome: Result<T, ReconcileError>) -> Result<
    T::V,
    ReconcileErrorView,
> {
    match outcome {
        Ok(value) => Ok(value@),
        Err(error) => Err(error@),
    }
}

/// The error that a job itself gives rise to.
pub fn job_error(message: &str) -> (out: ReconcileError)
    ensures
        out@ == ReconcileErrorView::Other(message@),
{
    ReconcileError::Other(message.to_owned())
}

/// What finalizing a job met.
#[derive(Debug)]
pub enum FinalizerError {
    ApplyFailed(ReconcileError),
    CleanupFailed(ReconcileError),
    AddFinalizer(KubeError),
    RemoveFinalizer(KubeError),
    UnnamedObject,
    InvalidFinalizer,
}

/// What finalizing a job met, as an error of reconciling it.
pub open spec fn finalizer_error(error: FinalizerError) -> ReconcileErrorView {
    match error {
        FinalizerError::ApplyFailed(inner) => inner@,
        FinalizerError::CleanupFailed(inner) => inner@,
        FinalizerError::AddFinalizer(inner) => ReconcileErrorView::Kube(inner@),
        FinalizerError::RemoveFinalizer(inner) => ReconcileErrorView::Kube(inner@),
        FinalizerError::UnnamedObject => ReconcileErrorView::Other("unnamed SpurJob"@),
        FinalizerError::InvalidFinalizer => ReconcileErrorView::Other(
            FINALIZER@ + " is not a valid finalizer name"@,
        ),
    }
}

/// What finalizing a job met, as an error of reconciling it.
pub fn map_finalizer_err(error: FinalizerError) -> (out: ReconcileError)
    ensures
        out@ == finalizer_error(error),
{
    match error {
        FinalizerError::ApplyFailed(inner) => inner,
        FinalizerError::CleanupFailed(inner) => inner,
        FinalizerError::AddFinalizer(inner) => ReconcileError::Kube(inner),
        FinalizerError::RemoveFinalizer(inner) => ReconcileError::Kube(inner),
        FinalizerError::UnnamedObject => job_error("unnamed SpurJob"),
        FinalizerError::InvalidFinalizer => ReconcileError::Other(
            join2(FINALIZER, " is not a valid finalizer name"),
        ),
    }
}

/// When a job is looked at next.
#[derive(Clone, Copy, Debug, PartialEq, Eq, Structural)]
pub enum Action {
    /// When it changes.
    AwaitChange,
    /// After this many milliseconds.
    RequeueMillis(u64),
}

impl View for Action {
    type V = Action;

    open spec fn view(&self) -> Action {
        *self
    }
}

/// When a job is looked at next after an error.
pub fn error_policy(error: &ReconcileError) -> (out: Action)
    ensures
        out == if error@ is CleanupPending {
            Action::RequeueMillis(1000)
        } else {
            Action::RequeueMillis((MAX_BACKOFF_SECS * 1000) as u64)
        },
{
    match error {
        ReconcileError::CleanupPending => Action::RequeueMillis(1000),
        _ => Action::RequeueMillis(MAX_BACKOFF_SECS * 1000),
    }
}

/// The namespace of a job.
pub open spec fn namespace_of(job: SpurJobView) -> Result<Seq<char>, ReconcileErrorView> {
    match job.metadata.namespace {
        Some(namespace) => Ok(namespace),
        None => Err(ReconcileErrorView::Other("SpurJob has no namespace"@)),
    }
}

/// The namespace of a job.
pub fn job_namespace(job: &SpurJob) -> (out: Result<String, ReconcileError>)
    ensures
        reconciled(out) == namespace_of(job@),
{
    match &job.metadata.namespace {
        Some(namespace) => Ok(namespace.clone()),
        None => Err(job_error("SpurJob has no namespace")),
    }
}

/// Whether a job carries the labels that route requests for its submission.
pub open spec fn labelled(job: SpurJobView, job_id: u32, generation: Seq<char>) -> bool {
    &&& lookup_opt(job.metadata.labels, JOB_ID_LABEL@) == Some(decimal(job_id as nat))
    &&& lookup_opt(job.metadata.labels, SUBMISSION_GENERATION_LABEL@) == Some(generation)
}

/// Whether a job carries the labels that route requests for its submission.
pub fn has_job_identity_labels(job: &SpurJob, job_id: u32, generation: &str) -> (yes: bool)
    ensures
        yes == labelled(job@, job_id, generation@),
{
    holds(get_opt(&job.metadata.labels, JOB_ID_LABEL), &u32_text(job_id)) && holds(
        get_opt(&job.metadata.labels, SUBMISSION_GENERATION_LABEL),
        &generation.to_owned(),
    )
}

/// Adds labels to a job, if it still has this version.
#[derive(Clone, Debug, Default)]
pub struct LabelPatch {
    pub resource_version: String,
    pub labels: StrMap,
}

/// What a [`LabelPatch`] holds.
#[verifier::ext_equal]
pub struct LabelPatchView {
    pub resource_version: Seq<char>,
    pub labels: Map<Seq<char>, Seq<char>>,
}

impl View for LabelPatch {
    type V = LabelPatchView;

    open spec fn view(&self) -> LabelPatchView {
        LabelPatchView {
            resource_version: self.resource_version.deep_view(),
            labels: self.labels.deep_view(),
        }
    }
}

impl DeepView for LabelPatch {
    type V = LabelPatchView;

    open spec fn deep_view(&self) -> LabelPatchView {
        self@
    }
}

impl Plain for LabelPatch {
    fn equals(&self, other: &Self) -> (same: bool) {
        self.resource_version.equals(&other.resource_version)
            && self.labels.equals(&other.labels)
    }

    fn copy_of(&self) -> (out: Self) {
        LabelPatch {
            resource_version: self.resource_version.copy_of(),
            labels: self.labels.copy_of(),
        }
    }
}

/// What to do about the labels of a job.
#[derive(Debug)]
pub enum LabelStep {
    /// They are there.
    Present,
    /// Add them.
    Patch(LabelPatch),
}

/// What a [`LabelStep`] holds.
pub enum LabelStepView {
    Present,
    Patch(LabelPatchView),
}

impl View for LabelStep {
    type V = LabelStepView;

    open spec fn view(&self) -> LabelStepView {
        match self {
            LabelStep::Present => LabelStepView::Present,
            LabelStep::Patch(patch) => LabelStepView::Patch(patch@),
        }
    }
}

/// Whether a label is there with another value.
pub open spec fn label_conflicts(job: SpurJobView, label: Seq<char>, value: Seq<char>) -> bool {
    lookup_opt(job.metadata.labels, label) matches Some(found) && found != value
}

/// The labels that route requests for a submission.
pub open spec fn identity_labels(job_id: u32, generation: Seq<char>) -> Map<Seq<char>, Seq<char>> {
    Map::<Seq<char>, Seq<char>>::empty().insert(JOB_ID_LABEL@, decimal(job_id as nat)).insert(
        SUBMISSION_GENERATION_LABEL@,
        generation,
    )
}

/// What to do so that a job carries the labels of its submission.
pub open spec fn labels_ensured(job: SpurJobView, job_id: u32, generation: Seq<char>) -> Result<
    LabelStepView,
    ReconcileErrorView,
> {
    if labelled(job, job_id, generation) {
        Ok(LabelStepView::Present)
    } else if label_conflicts(job, JOB_ID_LABEL@, decimal(job_id as nat)) || label_conflicts(
        job,
        SUBMISSION_GENERATION_LABEL@,
        generation,
    ) {
        Err(
            ReconcileErrorView::Other(
                "controller identity conflicts with durable SpurJob labels"@,
            ),
        )
    } else {
        match job.metadata.resource_version {
            None => Err(
                ReconcileErrorView::Other(
                    "SpurJob has no resourceVersion for identity-label CAS"@,
                ),
            ),
            Some(resource_version) => Ok(
                LabelStepView::Patch(
                    LabelPatchView {
                        resource_version,
                        labels: identity_labels(job_id, generation),
                    },
                ),
            ),
        }
    }
}

fn differs(found: Option<&String>, value: &str) -> (yes: bool)
    ensures
        yes == (found matches Some(text) && text@ != value@),
{
    match found {
        Some(text) => !same_text(text.as_str(), value),
        None => false,
    }
}

/// What to do so that a job carries the labels of its submission.
pub fn ensure_job_identity_labels(job: &SpurJob, job_id: u32, generation: &str) -> (out: Result<
    LabelStep,
    ReconcileError,
>)
    ensures
        reconciled(out) == labels_ensured(job@, job_id, generation@),
{
    if has_job_identity_labels(job, job_id, generation) {
        return Ok(LabelStep::Present);
    }
    let id = u32_text(job_id);
    if differs(get_opt(&job.metadata.labels, JOB_ID_LABEL), id.as_str()) || differs(
        get_opt(&job.metadata.labels, SUBMISSION_GENERATION_LABEL),
        generation,
    ) {
        return Err(job_error("controller identity conflicts with durable SpurJob labels"));
    }
    match &job.metadata.resource_version {
        None => Err(job_error("SpurJob has no resourceVersion for identity-label CAS")),
        Some(resource_version) => {
            let mut labels = StrMap::new();
            labels.insert(JOB_ID_LABEL.to_owned(), id);
            labels.insert(SUBMISSION_GENERATION_LABEL.to_owned(), generation.to_owned());
            Ok(LabelStep::Patch(LabelPatch { resource_version: resource_version.clone(), labels }))
        },
    }
}

/// The error of an update of labels that took too long.
pub fn label_patch_timed_out() -> (out: ReconcileError)
    ensures
        out@ == ReconcileErrorView::Kube(
            KubeErrorView::Api {
                code: 504,
                reason: "label patch timed out after "@ + decimal(LABEL_PATCH_BUDGET_SECS as nat)
                    + "s"@,
                message: "TimedOut"@,
            },
        ),
{
    let secs = u64_text(LABEL_PATCH_BUDGET_SECS);
    ReconcileError::Kube(
        KubeError::Api {
            code: 504,
            reason: join3("label patch timed out after ", secs.as_str(), "s"),
            message: "TimedOut".to_owned(),
        },
    )
}

/// Once the labels that a step asks for are added, the job carries the labels of
/// its submission.
pub proof fn law_patched_labels_are_present(job: SpurJobView, job_id: u32, generation: Seq<char>)
    requires
        labels_ensured(job, job_id, generation) is Ok,
    ensures
        ({
            let before = match job.metadata.labels {
                Some(labels) => labels,
                None => Map::<Seq<char>, Seq<char>>::empty(),
            };
            let after = SpurJobView {
                metadata: crate::k8s::ObjectMetaView {
                    labels: Some(before.union_prefer_right(identity_labels(job_id, generation))),
                    ..job.metadata
                },
                ..job
            };
            labelled(after, job_id, generation)
        }),
{
    crate::execution_identity::lemma_names_distinct();
}

/// What is tried again is what may pass by itself: a lost race, an overload, a
/// server that is away, a request that did not get through. A refusal is not.
pub proof fn law_passing_troubles_are_tried_again(
    code: u16,
    reason: Seq<char>,
    message: Seq<char>,
)
    ensures
        transient(KubeErrorView::Transport(message)),
        !transient(KubeErrorView::Other(message)),
        transient(KubeErrorView::Api { code: 429, reason, message }),
        transient(KubeErrorView::Api { code: 503, reason, message }),
        transient(KubeErrorView::Api { code: 504, reason, message }),
        transient(KubeErrorView::Api { code, reason: "Conflict"@, message }),
        reason != "Conflict"@ && code != 429 && code != 503 && code != 504 ==> !transient(
            KubeErrorView::Api { code, reason, message },
        ),
{
}

/// The labels of a job are those of its submission: they are found where both
/// stand there, added where neither contradicts, in the job as it was read, and
/// refused otherwise.
pub proof fn law_labels_name_the_submission(job: SpurJobView, job_id: u32, generation: Seq<char>)
    requires
        job.metadata.labels is Some,
    ensures
        ({
            let labels = job.metadata.labels->0;
            let has_id = labels.contains_key(JOB_ID_LABEL@);
            let has_generation = labels.contains_key(SUBMISSION_GENERATION_LABEL@);
            let wrong = (has_id && labels[JOB_ID_LABEL@] != decimal(job_id as nat)) || (
            has_generation && labels[SUBMISSION_GENERATION_LABEL@] != generation);
            let step = labels_ensured(job, job_id, generation);
            &&& wrong ==> step is Err
            &&& !wrong && has_id && has_generation ==> step == Ok::<
                LabelStepView,
                ReconcileErrorView,
            >(LabelStepView::Present)
            &&& !wrong && !(has_id && has_generation) && job.metadata.resource_version is Some
                ==> step is Ok && step->Ok_0 is Patch && {
                let patch = step->Ok_0->Patch_0;
                &&& job.metadata.resource_version == Some(patch.resource_version)
                &&& patch.labels.contains_key(JOB_ID_LABEL@)
                &&& patch.labels[JOB_ID_LABEL@] == decimal(job_id as nat)
                &&& patch.labels.contains_key(SUBMISSION_GENERATION_LABEL@)
                &&& patch.labels[SUBMISSION_GENERATION_LABEL@] == generation
                &&& forall|name: Seq<char>| #[trigger]
                    patch.labels.contains_key(name) ==> name == JOB_ID_LABEL@ || name
                        == SUBMISSION_GENERATION_LABEL@
            }
            &&& !wrong && !(has_id && has_generation) && job.metadata.resource_version is None
                ==> step is Err
        }),
{
    crate::execution_identity::lemma_names_distinct();
}

/// An error under the finalizer is the error itself, whichever side it is from.
pub proof fn law_finalizer_errors_are_passed_on(inner: ReconcileError, outer: KubeError)
    ensures
        finalizer_error(FinalizerError::ApplyFailed(inner)) == inner@,
        finalizer_error(FinalizerError::CleanupFailed(inner)) == inner@,
        finalizer_error(FinalizerError::AddFinalizer(outer)) == ReconcileErrorView::Kube(outer@),
        finalizer_error(FinalizerError::RemoveFinalizer(outer)) == ReconcileErrorView::Kube(
            outer@,
        ),
        finalizer_error(FinalizerError::UnnamedObject) is Other,
        finalizer_error(FinalizerError::InvalidFinalizer) is Other,
{
}

/// A job is worked on in the namespace it is in.
pub proof fn law_namespace_is_the_jobs_own(job: SpurJobView)
    ensures
        namespace_of(job) is Ok <==> job.metadata.namespace is Some,
        namespace_of(job) matches Ok(namespace) ==> job.metadata.namespace == Some(namespace),
{
}

} // verus!
