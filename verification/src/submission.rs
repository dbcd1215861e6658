//! The life of a job resource: admitting it, submitting it once, and following
//! what the controller says of it.

use vstd::prelude::*;
use crate::cleanup::{
    recorded_status, status_or_empty, ControllerCleanupFence, FenceView,
};
use crate::control::opt_reads;
use crate::crd::{SpurJob, SpurJobStatus, SpurJobStatusView, SpurJobView};
use crate::execution_identity::{is_blank, nonempty, or_empty};
use crate::job_state::{is_terminal, name_is_final, name_of_number, proto_job_state_to_string};
use crate::launch::{check_view, text_view};
use crate::plain::Plain;
use crate::reconcile::{
    job_error, job_namespace, namespace_of, reconciled, Action, ReconcileError, ReconcileErrorView,
};
use crate::text::{
    decimal, join2, join3, joined, law_joined_reads_back, split_on, split_text, u32_text,
};
use crate::uuids::{fresh_token, is_random_uuid_text};
use crate::wire::{JobInfo, JobInfoView};
use crate::words::{law_trimmed_loses_white_space_alone, trim_text, trimmed, white_space};

verus! {

/// Whether a job has not been submitted yet.
pub open spec fn unsubmitted(status: SpurJobStatusView) -> bool {
    status.spur_job_id is None
}

/// Whether a job has not been submitted yet.
pub fn should_submit(status: &SpurJobStatus) -> (yes: bool)
    ensures
        yes == unsubmitted(status@),
{
    status.spur_job_id.is_none()
}

fn has_text(value: &Option<String>) -> (yes: bool)
    ensures
        yes == (nonempty(value.deep_view()) is Some),
{
    match value {
        Some(text) => !is_blank(text),
        None => false,
    }
}

/// What to do first about a job.
#[derive(Debug)]
pub enum Admission {
    /// End it, for this reason.
    FailClosed(String),
    /// Deliver the completions of its pods, then read its status again.
    DrainOutbox,
    /// Go on with the status it has.
    Proceed,
}

/// What an [`Admission`] holds.
pub enum AdmissionView {
    FailClosed(Seq<char>),
    DrainOutbox,
    Proceed,
}

impl View for Admission {
    type V = AdmissionView;

    open spec fn view(&self) -> AdmissionView {
        match self {
            Admission::FailClosed(message) => AdmissionView::FailClosed(message@),
            Admission::DrainOutbox => AdmissionView::DrainOutbox,
            Admission::Proceed => AdmissionView::Proceed,
        }
    }
}

/// What to do first about a job, where `valid` says whether it can be launched at
/// all and `digest` is the fingerprint of what would be.
pub open spec fn admitted(
    job: SpurJobView,
    valid: Result<(), Seq<char>>,
    digest: Result<Seq<char>, Seq<char>>,
) -> Result<AdmissionView, ReconcileErrorView> {
    let status = status_or_empty(job);
    if namespace_of(job) is Err {
        Err(namespace_of(job)->Err_0)
    } else if valid is Err {
        Ok(AdmissionView::FailClosed(valid->Err_0))
    } else if digest is Err {
        Err(ReconcileErrorView::Other(digest->Err_0))
    } else if !name_is_final(status.state) && status.submission_token is Some
        && status.launch_spec_sha256 is None {
        Ok(
            AdmissionView::FailClosed(
                "submission token predates the immutable launch-spec fingerprint"@,
            ),
        )
    } else if !name_is_final(status.state) && status.submission_token is Some
        && status.launch_spec_sha256 != Some(digest->Ok_0) {
        Ok(
            AdmissionView::FailClosed(
                "SpurJob spec changed after submission intent was persisted; launch is blocked"@,
            ),
        )
    } else if nonempty(job.spec.array_spec) is Some {
        Ok(
            AdmissionView::FailClosed(
                "Kubernetes SpurJob arrays are unsupported until per-task identities are available"@,
            ),
        )
    } else if status.spur_job_id is Some {
        Ok(AdmissionView::DrainOutbox)
    } else {
        Ok(AdmissionView::Proceed)
    }
}

/// What to do first about a job, where `valid` says whether it can be launched at
/// all and `digest` is the fingerprint of what would be.
pub fn handle_job(job: &SpurJob, valid: &Result<(), String>, digest: &Result<String, String>) -> (out:
    Result<Admission, ReconcileError>)
    ensures
        reconciled(out) == admitted(job@, check_view(*valid), text_view(*digest)),
{
    if let Err(error) = job_namespace(job) {
        return Err(error);
    }
    let status = recorded_status(job);
    if let Err(message) = valid {
        return Ok(Admission::FailClosed(message.clone()));
    }
    let digest: &String = match digest {
        Err(message) => return Err(ReconcileError::Other(message.clone())),
        Ok(digest) => digest,
    };
    if !is_terminal(status.state.as_str()) && status.submission_token.is_some() {
        match &status.launch_spec_sha256 {
            None => return Ok(
                Admission::FailClosed(
                    "submission token predates the immutable launch-spec fingerprint".to_owned(),
                ),
            ),
            Some(persisted) => {
                if *persisted != *digest {
                    return Ok(
                        Admission::FailClosed(
                            "SpurJob spec changed after submission intent was persisted; launch is blocked".to_owned(),
                        ),
                    );
                }
            },
        }
    }
    if has_text(&job.spec.array_spec) {
        return Ok(
            Admission::FailClosed(
                "Kubernetes SpurJob arrays are unsupported until per-task identities are available".to_owned(),
            ),
        );
    }
    if status.spur_job_id.is_some() {
        Ok(Admission::DrainOutbox)
    } else {
        Ok(Admission::Proceed)
    }
}

/// A question to the controller about a job.
#[derive(Clone, Debug, Default)]
pub struct PollRequest {
    pub job_id: u32,
    pub submission_token: String,
    /// The generation that the job's labels must show first, where it is known.
    pub known_generation: Option<String>,
}

/// What a [`PollRequest`] holds.
#[verifier::ext_equal]
pub struct PollRequestView {
    pub job_id: u32,
    pub submission_token: Seq<char>,
    pub known_generation: Option<Seq<char>>,
}

impl View for PollRequest {
    type V = PollRequestView;

    open spec fn view(&self) -> PollRequestView {
        PollRequestView {
            job_id: self.job_id.deep_view(),
            submission_token: self.submission_token.deep_view(),
            known_generation: self.known_generation.deep_view(),
        }
    }
}

impl DeepView for PollRequest {
    type V = PollRequestView;

    open spec fn deep_view(&self) -> PollRequestView {
        self@
    }
}

impl Plain for PollRequest {
    fn equals(&self, other: &Self) -> (same: bool) {
        self.job_id.equals(&other.job_id)
            && self.submission_token.equals(&other.submission_token)
            && self.known_generation.equals(&other.known_generation)
    }

    fn copy_of(&self) -> (out: Self) {
        PollRequest {
            job_id: self.job_id.copy_of(),
            submission_token: self.submission_token.copy_of(),
            known_generation: self.known_generation.copy_of(),
        }
    }
}

/// The controller's answer to a submission.
#[derive(Clone, Debug, Default)]
pub struct SubmitJobResponse {
    pub job_id: u32,
    pub submission_generation: String,
}

/// What a [`SubmitJobResponse`] holds.
#[verifier::ext_equal]
pub struct SubmitJobResponseView {
    pub job_id: u32,
    pub submission_generation: Seq<char>,
}

impl View for SubmitJobResponse {
    type V = SubmitJobResponseView;

    open spec fn view(&self) -> SubmitJobResponseView {
        SubmitJobResponseView {
            job_id: self.job_id.deep_view(),
            submission_generation: self.submission_generation.deep_view(),
        }
    }
}

impl DeepView for SubmitJobResponse {
    type V = SubmitJobResponseView;

    open spec fn deep_view(&self) -> SubmitJobResponseView {
        self@
    }
}

impl Plain for SubmitJobResponse {
    fn equals(&self, other: &Self) -> (same: bool) {
        self.job_id.equals(&other.job_id)
            && self.submission_generation.equals(&other.submission_generation)
    }

    fn copy_of(&self) -> (out: Self) {
        SubmitJobResponse {
            job_id: self.job_id.copy_of(),
            submission_generation: self.submission_generation.copy_of(),
        }
    }
}

/// What to do next about an admitted job.
#[derive(Debug)]
pub enum JobStep {
    /// Nothing.
    Finish(Action),
    /// Record this status, then wait.
    Persist(SpurJobStatus, Action),
    /// Submit it.
    Submit,
    /// Ask the controller about it.
    Poll(PollRequest),
}

/// What a [`JobStep`] holds.
pub enum JobStepView {
    Finish(Action),
    Persist(SpurJobStatusView, Action),
    Submit,
    Poll(PollRequestView),
}

impl View for JobStep {
    type V = JobStepView;

    open spec fn view(&self) -> JobStepView {
        match self {
            JobStep::Finish(action) => JobStepView::Finish(*action),
            JobStep::Persist(status, action) => JobStepView::Persist(status@, *action),
            JobStep::Submit => JobStepView::Submit,
            JobStep::Poll(request) => JobStepView::Poll(request@),
        }
    }
}

/// The status that records the intent to submit.
pub open spec fn intending(
    status: SpurJobStatusView,
    digest: Seq<char>,
    token: Seq<char>,
) -> SpurJobStatusView {
    SpurJobStatusView {
        submission_token: Some(token),
        launch_spec_sha256: Some(digest),
        state: "Submitting"@,
        message: None,
        ..status
    }
}

/// What to do next about an admitted job with this status; `token` is used where
/// it has none.
pub open spec fn advanced(
    status: SpurJobStatusView,
    digest: Seq<char>,
    token: Seq<char>,
) -> JobStepView {
    if name_is_final(status.state) {
        JobStepView::Finish(Action::AwaitChange)
    } else {
        match status.spur_job_id {
            None => if nonempty(status.submission_token) is None {
                JobStepView::Persist(
                    intending(status, digest, token),
                    Action::RequeueMillis(200),
                )
            } else {
                JobStepView::Submit
            },
            Some(job_id) => JobStepView::Poll(
                PollRequestView {
                    job_id,
                    submission_token: or_empty(status.submission_token),
                    known_generation: status.submission_generation,
                },
            ),
        }
    }
}

/// What to do next about an admitted job with this status; `token` is used where
/// it has none.
pub fn advance_with_token(status: &SpurJobStatus, digest: &str, token: &str) -> (out: JobStep)
    ensures
        out@ == advanced(status@, digest@, token@),
{
    if is_terminal(status.state.as_str()) {
        return JobStep::Finish(Action::AwaitChange);
    }
    match &status.spur_job_id {
        None => {
            if !has_text(&status.submission_token) {
                let mut next = status.copy_of();
                next.submission_token = Some(token.to_owned());
                next.launch_spec_sha256 = Some(digest.to_owned());
                next.state = "Submitting".to_owned();
                next.message = None;
                proof {
                    assert(next@ =~= intending(status@, digest@, token@));
                }
                return JobStep::Persist(next, Action::RequeueMillis(200));
            }
            JobStep::Submit
        },
        Some(job_id) => {
            let submission_token: String = match &status.submission_token {
                Some(token) => token.clone(),
                None => String::new(),
            };
            JobStep::Poll(
                PollRequest {
                    job_id: *job_id,
                    submission_token,
                    known_generation: status.submission_generation.copy_of(),
                },
            )
        },
    }
}

/// What to do next about an admitted job with this status, with a fresh token
/// where it has none.
pub fn advance_job(status: &SpurJobStatus, digest: &str) -> (out: JobStep)
    ensures
        exists|token: Seq<char>| #[trigger]
            is_random_uuid_text(token) && out@ == advanced(status@, digest@, token),
{
    let token = fresh_token();
    advance_with_token(status, digest, token.as_str())
}

/// What to do about a submission, on a fresh reading of the job.
#[derive(Debug)]
pub enum SubmitStep {
    /// Nothing: it was submitted before.
    AlreadySubmitted,
    /// Submit it with this token.
    Submit(String),
}

/// What a [`SubmitStep`] holds.
pub enum SubmitStepView {
    AlreadySubmitted,
    Submit(Seq<char>),
}

impl View for SubmitStep {
    type V = SubmitStepView;

    open spec fn view(&self) -> SubmitStepView {
        match self {
            SubmitStep::AlreadySubmitted => SubmitStepView::AlreadySubmitted,
            SubmitStep::Submit(token) => SubmitStepView::Submit(token@),
        }
    }
}

/// What to do about a submission, on a fresh reading of the job.
pub open spec fn submittable(
    fresh: SpurJobView,
    valid: Result<(), Seq<char>>,
    digest: Result<Seq<char>, Seq<char>>,
) -> Result<SubmitStepView, ReconcileErrorView> {
    let status = status_or_empty(fresh);
    if !unsubmitted(status) {
        Ok(SubmitStepView::AlreadySubmitted)
    } else {
        match (nonempty(status.submission_token), valid, digest) {
            (None, _, _) => Err(
                ReconcileErrorView::Other("submission token must be persisted before SubmitJob"@),
            ),
            (_, Err(message), _) => Err(ReconcileErrorView::Other(message)),
            (_, _, Err(message)) => Err(ReconcileErrorView::Other(message)),
            (Some(token), Ok(_), Ok(current)) => if status.launch_spec_sha256 != Some(current) {
                Err(
                    ReconcileErrorView::Other(
                        "SpurJob spec changed after submission intent was persisted"@,
                    ),
                )
            } else {
                Ok(SubmitStepView::Submit(token))
            },
        }
    }
}

/// What to do about a submission, on a fresh reading of the job.
pub fn submit_to_controller(
    fresh: &SpurJob,
    valid: &Result<(), String>,
    digest: &Result<String, String>,
) -> (out: Result<SubmitStep, ReconcileError>)
    ensures
        reconciled(out) == submittable(fresh@, check_view(*valid), text_view(*digest)),
{
    let status = recorded_status(fresh);
    if !should_submit(&status) {
        return Ok(SubmitStep::AlreadySubmitted);
    }
    let token: String = match &status.submission_token {
        Some(token) => token.clone(),
        None => String::new(),
    };
    if is_blank(&token) {
        return Err(job_error("submission token must be persisted before SubmitJob"));
    }
    if let Err(message) = valid {
        return Err(ReconcileError::Other(message.clone()));
    }
    match digest {
        Err(message) => Err(ReconcileError::Other(message.clone())),
        Ok(current) => {
            if opt_reads(&status.launch_spec_sha256, current) {
                Ok(SubmitStep::Submit(token))
            } else {
                Err(job_error("SpurJob spec changed after submission intent was persisted"))
            }
        },
    }
}

/// The status of a job once the controller has accepted it.
pub open spec fn accepted(
    status: SpurJobStatusView,
    token: Seq<char>,
    response: SubmitJobResponseView,
) -> Result<SpurJobStatusView, ReconcileErrorView> {
    if response.submission_generation.len() == 0 {
        Err(
            ReconcileErrorView::Other(
                "controller omitted submission generation for job "@ + decimal(
                    response.job_id as nat,
                ),
            ),
        )
    } else {
        Ok(
            SpurJobStatusView {
                state: "Pending"@,
                spur_job_id: Some(response.job_id),
                submission_generation: Some(response.submission_generation),
                submission_token: Some(token),
                ..status
            },
        )
    }
}

/// The status of a job once the controller has accepted it. The labels of the
/// submission are ensured before it is recorded.
pub fn submission_accepted(
    status: &SpurJobStatus,
    token: &str,
    response: &SubmitJobResponse,
) -> (out: Result<SpurJobStatus, ReconcileError>)
    ensures
        reconciled(out) == accepted(status@, token@, response@),
{
    if is_blank(&response.submission_generation) {
        let id = u32_text(response.job_id);
        return Err(
            ReconcileError::Other(
                join2("controller omitted submission generation for job ", id.as_str()),
            ),
        );
    }
    let mut next = status.copy_of();
    next.state = "Pending".to_owned();
    next.spur_job_id = Some(response.job_id);
    next.submission_generation = Some(response.submission_generation.clone());
    next.submission_token = Some(token.to_owned());
    proof {
        assert(next@ =~= (SpurJobStatusView {
            state: "Pending"@,
            spur_job_id: Some(response@.job_id),
            submission_generation: Some(response@.submission_generation),
            submission_token: Some(token@),
            ..status@
        }));
    }
    Ok(next)
}

/// When a job is looked at next after a submission.
pub fn after_submission(submitted: bool) -> (out: Action)
    ensures
        out == if submitted {
            Action::RequeueMillis(5000)
        } else {
            Action::RequeueMillis(2000)
        },
{
    if submitted {
        Action::RequeueMillis(5000)
    } else {
        Action::RequeueMillis(2000)
    }
}

/// What to do about the controller's answer, in this order.
#[derive(Debug)]
pub struct PollStep {
    /// The generation that the job's labels must show.
    pub ensure_labels: Option<String>,
    /// The status to record.
    pub persist: Option<SpurJobStatus>,
    pub action: Action,
}

/// What a [`PollStep`] holds.
#[verifier::ext_equal]
pub struct PollStepView {
    pub ensure_labels: Option<Seq<char>>,
    pub persist: Option<SpurJobStatusView>,
    pub action: Action,
}

impl View for PollStep {
    type V = PollStepView;

    open spec fn view(&self) -> PollStepView {
        PollStepView {
            ensure_labels: self.ensure_labels.deep_view(),
            persist: self.persist.deep_view(),
            action: self.action,
        }
    }
}

/// The nodes that a list separated by commas names.
pub open spec fn nodes_of(list: Seq<char>) -> Seq<Seq<char>> {
    split_on(list, ',').map_values(|node: Seq<char>| trimmed(node))
}

/// The nodes that a list separated by commas names.
pub fn node_names(list: &str) -> (out: Vec<String>)
    ensures
        out.deep_view() == nodes_of(list@),
{
    let parts: Vec<String> = split_text(list, ',');
    let ghost pieces = split_on(list@, ',');
    let mut out: Vec<String> = Vec::new();
    let mut i: usize = 0;
    while i < parts.len()
        invariant
            i <= parts@.len(),
            parts.deep_view() == pieces,
            pieces == split_on(list@, ','),
            out.deep_view() == nodes_of(list@).take(i as int),
        decreases parts@.len() - i,
    {
        let ghost before = out.deep_view();
        let node = trim_text(parts[i].as_str());
        out.push(node);
        proof {
            assert(parts.deep_view()[i as int] == parts@[i as int]@);
            assert(out.deep_view() =~= before.push(node@));
            assert(nodes_of(list@).take(i + 1) =~= before.push(nodes_of(list@)[i as int]));
        }
        i = i + 1;
    }
    proof {
        assert(nodes_of(list@).take(i as int) =~= nodes_of(list@));
    }
    out
}

/// A status in this state, with this message.
pub open spec fn halted(
    status: SpurJobStatusView,
    state: Seq<char>,
    message: Seq<char>,
) -> SpurJobStatusView {
    SpurJobStatusView { state, message: Some(message), ..status }
}

fn halt(status: &SpurJobStatus, state: &str, message: String) -> (out: SpurJobStatus)
    ensures
        out@ == halted(status@, state@, message@),
{
    let mut next = status.copy_of();
    next.state = state.to_owned();
    next.message = Some(message);
    proof {
        assert(next@ =~= halted(status@, state@, message@));
    }
    next
}

/// The step that records why a job is not followed any more.
pub open spec fn halting(
    status: SpurJobStatusView,
    state: Seq<char>,
    message: Seq<char>,
) -> PollStepView {
    PollStepView {
        ensure_labels: None,
        persist: Some(halted(status, state, message)),
        action: Action::AwaitChange,
    }
}

fn halting_step(status: &SpurJobStatus, state: &str, message: String) -> (out: PollStep)
    ensures
        out@ == halting(status@, state@, message@),
{
    PollStep {
        ensure_labels: None,
        persist: Some(halt(status, state, message)),
        action: Action::AwaitChange,
    }
}

/// The status of a job that the controller reports in this state.
pub open spec fn followed(
    status: SpurJobStatusView,
    info: JobInfoView,
    generation: Seq<char>,
) -> SpurJobStatusView {
    SpurJobStatusView {
        state: name_of_number(info.state),
        submission_generation: Some(generation),
        assigned_nodes: if info.nodelist.len() > 0 {
            nodes_of(info.nodelist)
        } else {
            status.assigned_nodes
        },
        ..status
    }
}

/// What to do about a report on the very submission that a job records, or that
/// its token proves to be its own.
pub open spec fn following(
    status: SpurJobStatusView,
    info: JobInfoView,
    generation: Seq<char>,
) -> PollStepView {
    let state = name_of_number(info.state);
    PollStepView {
        ensure_labels: Some(generation),
        persist: if state != status.state || status.submission_generation != Some(generation) {
            Some(followed(status, info, generation))
        } else {
            None
        },
        action: if name_is_final(state) {
            Action::AwaitChange
        } else {
            Action::RequeueMillis(5000)
        },
    }
}

/// What to do about what the controller says of a job.
pub open spec fn polled(status: SpurJobStatusView, job_id: u32, info: JobInfoView) -> Result<
    PollStepView,
    ReconcileErrorView,
> {
    let id = decimal(job_id as nat);
    let reported = info.submission_generation;
    let token = nonempty(status.submission_token);
    if reported.len() == 0 {
        Err(
            ReconcileErrorView::Other(
                "controller omitted submission generation while polling job "@ + id,
            ),
        )
    } else if status.submission_generation matches Some(current) && current != reported {
        Ok(
            halting(
                status,
                "StaleIdentity"@,
                "controller job "@ + id + " now has generation "@ + reported
                    + "; preserving CR generation "@ + status.submission_generation->0,
            ),
        )
    } else if status.submission_generation is None && token != Some(info.submission_token) {
        Ok(
            halting(
                status,
                "MigrationRequired"@,
                "legacy numeric-only job cannot be backfilled without a matching durable submission token"@,
            ),
        )
    } else if token is Some && token != Some(info.submission_token) {
        Ok(
            halting(
                status,
                "StaleIdentity"@,
                "controller job "@ + id + " has a different durable submission token"@,
            ),
        )
    } else {
        Ok(following(status, info, reported))
    }
}

/// What to do about what the controller says of a job.
pub fn poll_job(status: &SpurJobStatus, job_id: u32, info: &JobInfo) -> (out: Result<
    PollStep,
    ReconcileError,
>)
    ensures
        reconciled(out) == polled(status@, job_id, info@),
{
    let id = u32_text(job_id);
    if is_blank(&info.submission_generation) {
        return Err(
            ReconcileError::Other(
                join2(
                    "controller omitted submission generation while polling job ",
                    id.as_str(),
                ),
            ),
        );
    }
    let token_matches = has_text(&status.submission_token) && opt_reads(
        &status.submission_token,
        &info.submission_token,
    );
    match &status.submission_generation {
        Some(current) => {
            if *current != info.submission_generation {
                let head = join3("controller job ", id.as_str(), " now has generation ");
                let tail = join3(
                    info.submission_generation.as_str(),
                    "; preserving CR generation ",
                    current.as_str(),
                );
                let message = join2(head.as_str(), tail.as_str());
                proof {
                    assert(message@ =~= "controller job "@ + decimal(job_id as nat)
                        + " now has generation "@ + info@.submission_generation
                        + "; preserving CR generation "@ + current@);
                }
                return Ok(halting_step(status, "StaleIdentity", message));
            }
        },
        None => {
            if !token_matches {
                return Ok(
                    halting_step(
                        status,
                        "MigrationRequired",
                        "legacy numeric-only job cannot be backfilled without a matching durable submission token".to_owned(),
                    ),
                );
            }
        },
    }
    if has_text(&status.submission_token) && !token_matches {
        let message = join3(
            "controller job ",
            id.as_str(),
            " has a different durable submission token",
        );
        return Ok(halting_step(status, "StaleIdentity", message));
    }
    let state = proto_job_state_to_string(info.state);
    let generation: &String = &info.submission_generation;
    let changed = state != status.state || !opt_reads(&status.submission_generation, generation);
    let persist: Option<SpurJobStatus> = if changed {
        let mut next = status.copy_of();
        next.state = state.clone();
        next.submission_generation = Some(generation.clone());
        if !is_blank(&info.nodelist) {
            next.assigned_nodes = node_names(info.nodelist.as_str());
        }
        proof {
            assert(next@ =~= followed(status@, info@, generation@));
        }
        Some(next)
    } else {
        None
    };
    let action = if is_terminal(state.as_str()) {
        Action::AwaitChange
    } else {
        Action::RequeueMillis(5000)
    };
    Ok(PollStep { ensure_labels: Some(generation.clone()), persist, action })
}

/// How a job that cannot be launched is ended.
#[derive(Debug)]
pub enum FailClosedStep {
    /// It was never submitted: record this status and wait for a change.
    Reject(SpurJobStatus),
    /// It may have been: end it at the controller first.
    Fence,
}

/// What a [`FailClosedStep`] holds.
pub enum FailClosedStepView {
    Reject(SpurJobStatusView),
    Fence,
}

impl View for FailClosedStep {
    type V = FailClosedStepView;

    open spec fn view(&self) -> FailClosedStepView {
        match self {
            FailClosedStep::Reject(status) => FailClosedStepView::Reject(status@),
            FailClosedStep::Fence => FailClosedStepView::Fence,
        }
    }
}

/// How a job that cannot be launched is ended.
pub open spec fn failed_closed(status: SpurJobStatusView, message: Seq<char>) -> FailClosedStepView {
    if nonempty(status.submission_token) is None {
        FailClosedStepView::Reject(halted(status, "Rejected"@, message))
    } else {
        FailClosedStepView::Fence
    }
}

/// How a job that cannot be launched is ended.
pub fn fail_closed_invalid_submission(status: &SpurJobStatus, message: &str) -> (out:
    FailClosedStep)
    ensures
        out@ == failed_closed(status@, message@),
{
    if has_text(&status.submission_token) {
        FailClosedStep::Fence
    } else {
        FailClosedStep::Reject(halt(status, "Rejected", message.to_owned()))
    }
}

/// The status to record once the controller was asked to end such a job, and
/// whether the job is done with.
pub open spec fn closed_after_fence(
    fence: FenceView,
    recovered: SpurJobStatusView,
    message: Seq<char>,
) -> (SpurJobStatusView, Result<Action, ReconcileErrorView>) {
    match fence {
        FenceView::Pending(_) => (
            halted(recovered, "CancellingInvalidSpec"@, message),
            Err(ReconcileErrorView::CleanupPending),
        ),
        FenceView::Complete(_) => (
            halted(recovered, "Failed"@, message),
            Ok(Action::AwaitChange),
        ),
    }
}

/// The status to record once the controller was asked to end such a job, and
/// whether the job is done with. `recovered` is its status read again, where the
/// controller named its submission.
pub fn close_after_fence(
    fence: &ControllerCleanupFence,
    recovered: &SpurJobStatus,
    message: &str,
) -> (out: (SpurJobStatus, Result<Action, ReconcileError>))
    ensures
        (out.0@, reconciled(out.1)) == closed_after_fence(fence@, recovered@, message@),
{
    match fence {
        ControllerCleanupFence::Pending(_) => (
            halt(recovered, "CancellingInvalidSpec", message.to_owned()),
            Err(ReconcileError::CleanupPending),
        ),
        ControllerCleanupFence::Complete(_) => (
            halt(recovered, "Failed", message.to_owned()),
            Ok(Action::AwaitChange),
        ),
    }
}

/// A job is submitted with the token that its status already records, never with
/// another: what is asked of the controller can be asked again after a crash.
pub proof fn law_token_is_recorded_before_submission(
    status: SpurJobStatusView,
    fresh: SpurJobView,
    digest: Seq<char>,
    token: Seq<char>,
    valid: Result<(), Seq<char>>,
    current: Result<Seq<char>, Seq<char>>,
)
    ensures
        advanced(status, digest, token) is Submit ==> nonempty(status.submission_token) is Some,
        submittable(fresh, valid, current) matches Ok(SubmitStepView::Submit(used))
            ==> status_or_empty(fresh).submission_token == Some(used) && used.len() > 0,
{
}

/// An accepted job is not submitted again.
pub proof fn law_job_is_submitted_once(
    job: SpurJobView,
    token: Seq<char>,
    response: SubmitJobResponseView,
    valid: Result<(), Seq<char>>,
    digest: Result<Seq<char>, Seq<char>>,
    later_digest: Seq<char>,
    later_token: Seq<char>,
)
    ensures
        accepted(status_or_empty(job), token, response) matches Ok(status) ==> {
            &&& submittable((SpurJobView { status: Some(status), ..job }), valid, digest) == Ok::<
                SubmitStepView,
                ReconcileErrorView,
            >(SubmitStepView::AlreadySubmitted)
            &&& !(advanced(status, later_digest, later_token) is Submit)
        },
{
}

/// A job whose spec changed after the intent to submit it was recorded is not
/// launched: it is ended, and a submission in progress fails.
pub proof fn law_changed_spec_is_not_launched(
    job: SpurJobView,
    digest: Seq<char>,
)
    requires
        job.metadata.namespace is Some,
        job.status matches Some(status) && status.submission_token is Some && !name_is_final(
            status.state,
        ) && status.launch_spec_sha256 != Some(digest),
    ensures
        admitted(job, Ok(()), Ok(digest)) matches Ok(AdmissionView::FailClosed(_)),
        !(submittable(job, Ok(()), Ok(digest)) matches Ok(SubmitStepView::Submit(_))),
{
}

/// Whatever the controller says, a recorded generation, token or provenance
/// record is not overwritten.
pub proof fn law_polling_keeps_identity(status: SpurJobStatusView, job_id: u32, info: JobInfoView)
    ensures
        polled(status, job_id, info) matches Ok(step) ==> (step.persist matches Some(next) ==> {
            &&& next.submission_token == status.submission_token
            &&& next.spur_job_id == status.spur_job_id
            &&& next.launch_spec_sha256 == status.launch_spec_sha256
            &&& next.pod_uids == status.pod_uids
            &&& next.pod_dispatch_tokens == status.pod_dispatch_tokens
            &&& next.service_uids == status.service_uids
            &&& next.service_dispatch_tokens == status.service_dispatch_tokens
            &&& next.completion_deliveries == status.completion_deliveries
            &&& status.submission_generation is Some ==> next.submission_generation
                == status.submission_generation
        }),
{
}

/// A job that is done with stays as it is.
pub proof fn law_finished_jobs_rest(status: SpurJobStatusView, digest: Seq<char>, token: Seq<char>)
    requires
        name_is_final(status.state),
    ensures
        advanced(status, digest, token) == JobStepView::Finish(Action::AwaitChange),
{
}

/// A job that is not yet submitted gets a token and the fingerprint of what it
/// asks for on record first. Nothing else of its status changes, except that it
/// says so.
pub proof fn law_intent_is_recorded_in_full(
    status: SpurJobStatusView,
    digest: Seq<char>,
    token: Seq<char>,
)
    requires
        !name_is_final(status.state),
        status.spur_job_id is None,
        status.submission_token is None || (status.submission_token->0).len() == 0,
    ensures
        advanced(status, digest, token) is Persist,
        ({
            let next = advanced(status, digest, token)->Persist_0;
            &&& next.submission_token == Some(token)
            &&& next.launch_spec_sha256 == Some(digest)
            &&& next.state == "Submitting"@
            &&& next.message is None
            &&& next.spur_job_id is None
            &&& next.submission_generation == status.submission_generation
            &&& next.assigned_nodes == status.assigned_nodes
            &&& next.pod_uids == status.pod_uids
            &&& next.pod_dispatch_tokens == status.pod_dispatch_tokens
            &&& next.service_uids == status.service_uids
            &&& next.service_dispatch_tokens == status.service_dispatch_tokens
            &&& next.completion_deliveries == status.completion_deliveries
            &&& token.len() > 0 ==> advanced(next, digest, token) is Submit
        }),
        advanced(status, digest, token)->Persist_1 == Action::RequeueMillis(200),
{
    reveal_strlit("Submitting");
    reveal_strlit("Completed");
    reveal_strlit("Failed");
    reveal_strlit("Cancelled");
    reveal_strlit("Timeout");
    reveal_strlit("Deadline");
    reveal_strlit("OutOfMemory");
    reveal_strlit("NodeFail");
    reveal_strlit("Rejected");
    reveal_strlit("MigrationRequired");
    reveal_strlit("StaleIdentity");
    assert("Submitting"@.len() == 10);
    assert("Submitting"@[0] == 'S');
}

/// A submitted job is asked after by its own number and token.
pub proof fn law_poll_is_about_the_job(
    status: SpurJobStatusView,
    digest: Seq<char>,
    token: Seq<char>,
)
    requires
        !name_is_final(status.state),
        status.spur_job_id is Some,
    ensures
        advanced(status, digest, token) is Poll,
        ({
            let request = advanced(status, digest, token)->Poll_0;
            &&& request.job_id == status.spur_job_id->0
            &&& request.known_generation == status.submission_generation
            &&& status.submission_token is Some ==> request.submission_token
                == status.submission_token->0
            &&& status.submission_token is None ==> request.submission_token.len() == 0
        }),
{
}

/// What a submission was answered with is recorded: the job's number, its
/// generation and the token, and the rest of the status as it was.
pub proof fn law_accepted_submission_is_recorded(
    status: SpurJobStatusView,
    token: Seq<char>,
    response: SubmitJobResponseView,
)
    ensures
        accepted(status, token, response) is Ok <==> response.submission_generation.len() > 0,
        accepted(status, token, response) matches Ok(next) ==> {
            &&& next.spur_job_id == Some(response.job_id)
            &&& next.submission_generation == Some(response.submission_generation)
            &&& next.submission_token == Some(token)
            &&& next.state == "Pending"@
            &&& next.launch_spec_sha256 == status.launch_spec_sha256
            &&& next.message == status.message
            &&& next.assigned_nodes == status.assigned_nodes
            &&& next.pod_uids == status.pod_uids
            &&& next.pod_dispatch_tokens == status.pod_dispatch_tokens
            &&& next.service_uids == status.service_uids
            &&& next.service_dispatch_tokens == status.service_dispatch_tokens
            &&& next.completion_deliveries == status.completion_deliveries
        },
{
}

/// A job goes on only where it is valid, is not an array, and still asks for
/// what it asked for when its token was recorded. One that is over is not held
/// to its fingerprint. A submitted one delivers its completions first.
pub proof fn law_admission_is_of_an_unchanged_job(
    job: SpurJobView,
    valid: Result<(), Seq<char>>,
    digest: Result<Seq<char>, Seq<char>>,
)
    requires
        job.status is Some,
    ensures
        ({
            let status = job.status->0;
            let is_array = job.spec.array_spec is Some && (job.spec.array_spec->0).len() > 0;
            let unchanged = name_is_final(status.state) || status.submission_token is None
                || status.launch_spec_sha256 == Some(digest->Ok_0);
            let out = admitted(job, valid, digest);
            &&& out is Ok <==> job.metadata.namespace is Some && (valid is Err || digest is Ok)
            &&& out is Ok ==> (out->Ok_0 is FailClosed <==> valid is Err || !unchanged || is_array)
            &&& out is Ok && valid is Err ==> out->Ok_0 == AdmissionView::FailClosed(valid->Err_0)
            &&& out is Ok && !(out->Ok_0 is FailClosed) ==> (out->Ok_0 is DrainOutbox
                <==> status.spur_job_id is Some)
            &&& out is Ok && !(out->Ok_0 is FailClosed) ==> (out->Ok_0 is Proceed
                <==> status.spur_job_id is None)
        }),
{
}

/// What is submitted is a valid job, with the token on record, that still asks
/// for what it asked for when the token was recorded.
pub proof fn law_submission_is_of_an_unchanged_job(
    fresh: SpurJobView,
    valid: Result<(), Seq<char>>,
    digest: Result<Seq<char>, Seq<char>>,
)
    requires
        fresh.status is Some,
    ensures
        ({
            let status = fresh.status->0;
            let out = submittable(fresh, valid, digest);
            &&& status.spur_job_id is Some ==> out == Ok::<SubmitStepView, ReconcileErrorView>(
                SubmitStepView::AlreadySubmitted,
            )
            &&& status.spur_job_id is None ==> (out is Ok <==> valid is Ok && digest is Ok
                && status.submission_token is Some && (status.submission_token->0).len() > 0
                && status.launch_spec_sha256 == Some(digest->Ok_0))
            &&& status.spur_job_id is None && out is Ok ==> out->Ok_0 == SubmitStepView::Submit(
                status.submission_token->0,
            )
        }),
{
}

/// The nodes of a list are the names between its commas, without the white space
/// around them.
pub proof fn law_node_list_reads_back(names: Seq<Seq<char>>)
    requires
        names.len() > 0,
        forall|i: int|
            0 <= i < names.len() ==> (#[trigger] names[i]).len() > 0 && !names[i].contains(',')
                && !white_space(names[i][0]) && !white_space(names[i].last()),
    ensures
        nodes_of(joined(names, seq![','])) == names,
{
    law_joined_reads_back(names, ',');
    assert forall|i: int| 0 <= i < names.len() implies trimmed(#[trigger] names[i]) == names[i] by {
        law_trimmed_loses_white_space_alone(names[i]);
    }
    assert(nodes_of(joined(names, seq![','])) =~= names);
}

/// A job whose identity is the controller's follows the controller: its state
/// and nodes are the ones reported, its generation is settled, and it is looked
/// at again in five seconds unless it is over. Nothing is written where nothing
/// changed.
pub proof fn law_poll_follows_the_controller(
    status: SpurJobStatusView,
    job_id: u32,
    info: JobInfoView,
)
    requires
        info.submission_generation.len() > 0,
        status.submission_generation is Some ==> status.submission_generation->0
            == info.submission_generation,
        status.submission_token == Some(info.submission_token),
        info.submission_token.len() > 0,
    ensures
        polled(status, job_id, info) is Ok,
        ({
            let step = polled(status, job_id, info)->Ok_0;
            let state = name_of_number(info.state);
            &&& step.ensure_labels == Some(info.submission_generation)
            &&& step.persist is None <==> state == status.state && status.submission_generation
                == Some(info.submission_generation)
            &&& step.persist matches Some(next) ==> {
                &&& next.state == state
                &&& next.submission_generation == Some(info.submission_generation)
                &&& next.message == status.message
                &&& info.nodelist.len() == 0 ==> next.assigned_nodes == status.assigned_nodes
                &&& info.nodelist.len() > 0 ==> next.assigned_nodes == nodes_of(info.nodelist)
            }
            &&& step.action == if name_is_final(state) {
                Action::AwaitChange
            } else {
                Action::RequeueMillis(5000)
            }
        }),
{
}

/// A job whose number now belongs to another submission stops there: it says so,
/// keeps the identity it has, and follows nothing.
pub proof fn law_poll_stops_at_another_submission(
    status: SpurJobStatusView,
    job_id: u32,
    info: JobInfoView,
)
    requires
        info.submission_generation.len() > 0,
        (status.submission_generation is Some && status.submission_generation->0
            != info.submission_generation) || (status.submission_token is Some && (
        status.submission_token->0).len() > 0 && status.submission_token->0
            != info.submission_token) || (status.submission_generation is None
            && status.submission_token is None),
    ensures
        polled(status, job_id, info) is Ok,
        ({
            let step = polled(status, job_id, info)->Ok_0;
            &&& step.ensure_labels is None
            &&& step.action == Action::AwaitChange
            &&& step.persist is Some
            &&& (step.persist->0).state == (if status.submission_generation is None {
                "MigrationRequired"@
            } else {
                "StaleIdentity"@
            })
            &&& (step.persist->0).submission_generation == status.submission_generation
            &&& (step.persist->0).assigned_nodes == status.assigned_nodes
            &&& (step.persist->0).message is Some
            &&& name_is_final((step.persist->0).state)
        }),
{
}

/// A job that cannot go on is rejected where it was never submitted, and ended
/// at the controller first where it may have been.
pub proof fn law_unsubmitted_jobs_are_rejected(status: SpurJobStatusView, message: Seq<char>)
    ensures
        failed_closed(status, message) is Fence <==> status.submission_token is Some && (
        status.submission_token->0).len() > 0,
        failed_closed(status, message) matches FailClosedStepView::Reject(next) ==> {
            &&& next.state == "Rejected"@
            &&& next.message == Some(message)
            &&& next.spur_job_id == status.spur_job_id
            &&& next.submission_generation == status.submission_generation
            &&& next.submission_token == status.submission_token
            &&& next.completion_deliveries == status.completion_deliveries
        },
{
}

/// A job that was ended at the controller fails once nothing of it is left, and
/// is being cancelled until it does.
pub proof fn law_fenced_job_fails_when_clean(
    fence: FenceView,
    recovered: SpurJobStatusView,
    message: Seq<char>,
)
    ensures
        ({
            let (next, action) = closed_after_fence(fence, recovered, message);
            &&& next.message == Some(message)
            &&& fence is Complete ==> next.state == "Failed"@ && action == Ok::<
                Action,
                ReconcileErrorView,
            >(Action::AwaitChange)
            &&& fence is Pending ==> next.state == "CancellingInvalidSpec"@ && action == Err::<
                Action,
                ReconcileErrorView,
            >(ReconcileErrorView::CleanupPending)
            &&& next.spur_job_id == recovered.spur_job_id
            &&& next.submission_token == recovered.submission_token
            &&& next.submission_generation == recovered.submission_generation
            &&& next.pod_uids == recovered.pod_uids
            &&& next.completion_deliveries == recovered.completion_deliveries
        }),
{
}

} // verus!
