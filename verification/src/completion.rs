//! Completions of pods: what is reported of them, and how a report is kept until
//! the controller has it.

use vstd::prelude::*;
use crate::cleanup::{
    after_job_update, attempted, follow_job_update, resource_owned_by, UpdateReply,
};
use crate::control::{controlled_by, opt_reads};
use crate::crd::{
    ascending, filed, law_filed_completion_is_found, law_filing_keeps_the_order, CompletionEntry,
    CompletionEntryView, PodCompletionDelivery, PodCompletionDeliveryView, SpurJob, SpurJobStatus,
    SpurJobStatusView, SpurJobView,
};
use crate::envvars::text_le;
use crate::execution_identity::{
    carried_identity, get_opt, holds, is_blank, lookup, lookup_opt, nonempty, or_empty,
    PodExecutionIdentity, PodExecutionIdentityView, PROVENANCE_RECORDED_ANNOTATION,
};
use crate::job_state::{
    completion_state, law_numbers_are_those_of_the_protocol, state_from_number, state_is_final,
    state_of_number, wire_number, JobState,
};
use crate::k8s::{
    ContainerStatus, ContainerStatusView, ContainerTerminationView, ObjectMetaView, OwnerReference,
    OwnerReferenceView, Pod, PodStatusView, PodView,
};
use crate::launch::check_view;
use crate::plain::Plain;
use crate::provenance::{NextAttempt, OwnerKey, OwnerKeyView};
use crate::reconcile::{job_error, reconciled, ReconcileError, ReconcileErrorView};
use crate::status::Code;
use crate::text::{i64_text, join2, join3, same_text, signed_decimal};
use crate::wire::{JobInfo, JobInfoView, ReportJobStatusRequest, ReportJobStatusRequestView};

verus! {

/// The label that names the node a pod was meant for.
pub const TARGET_NODE_LABEL: &'static str = "spur.ai/target-node";

/// The API group and version of jobs, and their kind.
pub const JOB_API_VERSION: &'static str = "spur.amd.com/v1alpha1";

pub const JOB_KIND: &'static str = "SpurJob";

/// The signal that a process killed for want of memory is reported with: that of
/// the kill, marked with `flag`.
pub fn oom_kill_signal(flag: i32) -> (out: i32)
    ensures
        out == 9i32 | flag,
{
    9 | flag
}

/// Whether a status records the token and the UID of a pod of its submission.
pub open spec fn binds_pod(
    status: SpurJobStatusView,
    pod_name: Seq<char>,
    pod_uid: Seq<char>,
    identity: PodExecutionIdentityView,
) -> bool {
    &&& identity.submission_token.len() > 0
    &&& identity.pod_dispatch_token.len() > 0
    &&& status.spur_job_id == Some(identity.key.job_id)
    &&& status.submission_generation == Some(identity.key.submission_generation)
    &&& status.submission_token == Some(identity.submission_token)
    &&& lookup(status.pod_dispatch_tokens, pod_name) == Some(identity.pod_dispatch_token)
    &&& lookup(status.pod_uids, pod_name) == Some(pod_uid)
}

/// Whether a status records the token and the UID of a pod of its submission.
pub fn status_binds_pod(
    status: &SpurJobStatus,
    pod_name: &str,
    pod_uid: &str,
    identity: &PodExecutionIdentity,
) -> (yes: bool)
    ensures
        yes == binds_pod(status@, pod_name@, pod_uid@, identity@),
{
    !is_blank(&identity.submission_token) && !is_blank(&identity.pod_dispatch_token)
        && status.spur_job_id.equals(&Some(identity.key.job_id)) && opt_reads(
        &status.submission_generation,
        &identity.key.submission_generation,
    ) && opt_reads(&status.submission_token, &identity.submission_token) && holds(
        status.pod_dispatch_tokens.get(pod_name),
        &identity.pod_dispatch_token,
    ) && holds(status.pod_uids.get(pod_name), &pod_uid.to_owned())
}

/// Whether a pod is marked as recorded by its job.
pub open spec fn marked_recorded(meta: ObjectMetaView) -> bool {
    lookup_opt(meta.annotations, PROVENANCE_RECORDED_ANNOTATION@) == Some("true"@)
}

fn is_marked_recorded(pod: &Pod) -> (yes: bool)
    ensures
        yes == marked_recorded(pod@.metadata),
{
    match get_opt(&pod.metadata.annotations, PROVENANCE_RECORDED_ANNOTATION) {
        Some(value) => same_text(value.as_str(), "true"),
        None => false,
    }
}

/// Whether a reference is that of an owning job.
pub open spec fn refers_to_job(owner: OwnerReferenceView) -> bool {
    owner.controller == Some(true) && owner.api_version == JOB_API_VERSION@ && owner.kind
        == JOB_KIND@
}

/// The first reference to an owning job.
pub open spec fn owning_job(owners: Seq<OwnerReferenceView>) -> Option<OwnerReferenceView>
    decreases owners.len(),
{
    if owners.len() == 0 {
        None
    } else if refers_to_job(owners[0]) {
        Some(owners[0])
    } else {
        owning_job(owners.skip(1))
    }
}

fn find_owning_job(owners: &Vec<OwnerReference>) -> (out: Option<&OwnerReference>)
    ensures
        match out {
            Some(owner) => owning_job(owners.deep_view()) == Some(owner@),
            None => owning_job(owners.deep_view()) is None,
        },
{
    let ghost items = owners.deep_view();
    let mut i: usize = 0;
    proof {
        assert(items.skip(0) =~= items);
    }
    while i < owners.len()
        invariant
            i <= owners@.len(),
            items == owners.deep_view(),
            owning_job(items) == owning_job(items.skip(i as int)),
        decreases owners@.len() - i,
    {
        let owner = &owners[i];
        proof {
            assert(items.skip(i as int)[0] == owner@);
            assert(items.skip(i as int).skip(1) =~= items.skip(i + 1));
        }
        if owner.controller.equals(&Some(true)) && same_text(
            owner.api_version.as_str(),
            JOB_API_VERSION,
        ) && same_text(owner.kind.as_str(), JOB_KIND) {
            return Some(owner);
        }
        i = i + 1;
    }
    None
}

/// Which job must be read to verify that it owns a pod; none where the pod
/// cannot be verified at all.
pub open spec fn owner_to_verify(
    pod: PodView,
    identity: PodExecutionIdentityView,
) -> Option<OwnerKeyView> {
    let meta = pod.metadata;
    if identity.submission_token.len() == 0 || identity.pod_dispatch_token.len() == 0
        || !marked_recorded(meta) || meta.name is None || meta.uid is None {
        None
    } else {
        match (meta.namespace, meta.owner_references) {
            (Some(namespace), Some(owners)) => match owning_job(owners) {
                Some(owner) => Some(
                    OwnerKeyView { namespace, name: owner.name, uid: owner.uid },
                ),
                None => None,
            },
            _ => None,
        }
    }
}

/// Which job must be read to verify that it owns a pod; none where the pod
/// cannot be verified at all.
pub fn claimed_owner(pod: &Pod, identity: &PodExecutionIdentity) -> (out: Option<OwnerKey>)
    ensures
        out.deep_view() == owner_to_verify(pod@, identity@),
{
    if is_blank(&identity.submission_token) || is_blank(&identity.pod_dispatch_token)
        || !is_marked_recorded(pod) || pod.metadata.name.is_none() || pod.metadata.uid.is_none() {
        return None;
    }
    match (&pod.metadata.namespace, &pod.metadata.owner_references) {
        (Some(namespace), Some(owners)) => match find_owning_job(owners) {
            Some(owner) => Some(
                OwnerKey {
                    namespace: namespace.clone(),
                    name: owner.name.clone(),
                    uid: owner.uid.clone(),
                },
            ),
            None => None,
        },
        _ => None,
    }
}

/// Whether the job that was read owns a pod and records it.
pub open spec fn owner_verified(
    pod: PodView,
    identity: PodExecutionIdentityView,
    job: SpurJobView,
) -> bool {
    match owner_to_verify(pod, identity) {
        None => false,
        Some(key) => job.metadata.uid == Some(key.uid) && (job.status matches Some(status)
            && binds_pod(status, pod.metadata.name->0, pod.metadata.uid->0, identity)),
    }
}

/// Whether the job that was read owns a pod and records it.
pub fn verified_owner_for_pod(pod: &Pod, identity: &PodExecutionIdentity, job: &SpurJob) -> (yes:
    bool)
    ensures
        yes == owner_verified(pod@, identity@, job@),
{
    let key = match claimed_owner(pod, identity) {
        Some(key) => key,
        None => return false,
    };
    if !opt_reads(&job.metadata.uid, &key.uid) {
        return false;
    }
    match (&job.status, &pod.metadata.name, &pod.metadata.uid) {
        (Some(status), Some(name), Some(uid)) => status_binds_pod(
            status,
            name.as_str(),
            uid.as_str(),
            identity,
        ),
        _ => false,
    }
}

/// The node that a report about a pod names: the one it ran on, else the one it
/// was meant for.
pub open spec fn reporting_node(pod: PodView) -> Option<Seq<char>> {
    let ran_on = match pod.spec {
        Some(spec) => nonempty(spec.node_name),
        None => None,
    };
    match ran_on {
        Some(node) => Some(node),
        None => nonempty(lookup_opt(pod.metadata.labels, TARGET_NODE_LABEL@)),
    }
}

/// The node that a report about a pod names: the one it ran on, else the one it
/// was meant for.
pub fn resolve_reporting_node(pod: &Pod) -> (out: Option<String>)
    ensures
        out.deep_view() == reporting_node(pod@),
{
    if let Some(spec) = &pod.spec {
        if let Some(node) = &spec.node_name {
            if !is_blank(node) {
                return Some(node.clone());
            }
        }
    }
    match get_opt(&pod.metadata.labels, TARGET_NODE_LABEL) {
        Some(node) => if is_blank(node) {
            None
        } else {
            Some(node.clone())
        },
        None => None,
    }
}

/// The value of an outcome whose error is a message.
pub open spec fn message_of<T: View>(outcome: Result<T, String>) -> Result<T::V, Seq<char>> {
    match outcome {
        Ok(value) => Ok(value@),
        Err(message) => Err(message@),
    }
}

/// The report about a pod, made only of the identity that the pod carries.
pub open spec fn report_of(
    pod: PodView,
    identity: PodExecutionIdentityView,
    state: i32,
    exit_code: i32,
    signal: i32,
    message: Seq<char>,
) -> Result<ReportJobStatusRequestView, Seq<char>> {
    match carried_identity(pod.metadata) {
        Err(error) => Err(error),
        Ok(parsed) => if parsed != identity {
            Err("Pod annotations changed during completion handling"@)
        } else {
            match reporting_node(pod) {
                None => Err("spec.nodeName and spur.ai/target-node are both missing"@),
                Some(node) => Ok(
                    ReportJobStatusRequestView {
                        job_id: parsed.key.job_id,
                        state,
                        exit_code,
                        signal,
                        message,
                        drain_node: false,
                        drain_reason: Seq::empty(),
                        reporting_node: node,
                        run_attempt: parsed.key.run_attempt,
                        submission_generation: parsed.key.submission_generation,
                        worker_incarnation: parsed.worker_incarnation,
                        submission_token: parsed.submission_token,
                    },
                ),
            }
        },
    }
}

/// The report about a pod, made only of the identity that the pod carries: what
/// the controller now knows under its job ID may be another job.
pub fn completion_report_from_pod(
    pod: &Pod,
    identity: &PodExecutionIdentity,
    state: i32,
    exit_code: i32,
    signal: i32,
    message: String,
) -> (out: Result<ReportJobStatusRequest, String>)
    ensures
        message_of(out) == report_of(pod@, identity@, state, exit_code, signal, message@),
{
    let parsed = match PodExecutionIdentity::from_pod(pod) {
        Err(error) => return Err(error),
        Ok(parsed) => parsed,
    };
    if !parsed.equals(identity) {
        return Err("Pod annotations changed during completion handling".to_owned());
    }
    match resolve_reporting_node(pod) {
        None => Err("spec.nodeName and spur.ai/target-node are both missing".to_owned()),
        Some(node) => Ok(
            ReportJobStatusRequest {
                job_id: parsed.key.job_id,
                state,
                exit_code,
                signal,
                message,
                drain_node: false,
                drain_reason: String::new(),
                reporting_node: node,
                run_attempt: parsed.key.run_attempt,
                submission_generation: parsed.key.submission_generation,
                worker_incarnation: parsed.worker_incarnation,
                submission_token: parsed.submission_token,
            },
        ),
    }
}

/// Whether a reason says that an image could not be pulled.
pub open spec fn is_pull_failure(reason: Seq<char>) -> bool {
    reason == "ImagePullBackOff"@ || reason == "ErrImagePull"@
}

fn says_pull_failure(reason: &str) -> (yes: bool)
    ensures
        yes == is_pull_failure(reason@),
{
    same_text(reason, "ImagePullBackOff") || same_text(reason, "ErrImagePull")
}

/// How a pod failed: the state on the wire, the exit code, a message, and whether
/// it ran out of memory.
pub struct FailureView {
    pub state: i32,
    pub exit_code: i32,
    pub message: Seq<char>,
    pub oom: bool,
}

/// A failure that is no want of memory.
pub open spec fn plain_failure(exit_code: i32, message: Seq<char>) -> FailureView {
    FailureView { state: 4, exit_code, message, oom: false }
}

/// How a container says that its pod failed.
pub open spec fn container_failure(status: ContainerStatusView) -> Option<FailureView> {
    match status.state {
        None => None,
        Some(state) => match (state.terminated, state.waiting) {
            (Some(ended), _) => {
                let reason = or_empty(ended.reason);
                let message = or_empty(ended.message);
                if reason == "OOMKilled"@ {
                    Some(
                        FailureView {
                            state: 4,
                            exit_code: ended.exit_code,
                            message: "OOMKilled: container exceeded memory limit"@,
                            oom: true,
                        },
                    )
                } else {
                    Some(
                        plain_failure(
                            ended.exit_code,
                            if message.len() > 0 {
                                reason + ": "@ + message
                            } else if reason.len() > 0 {
                                reason
                            } else {
                                "exit_code="@ + signed_decimal(ended.exit_code as int)
                            },
                        ),
                    )
                }
            },
            (None, Some(waiting)) => if is_pull_failure(or_empty(waiting.reason)) {
                Some(plain_failure(1, "Image pull failed: "@ + or_empty(waiting.reason)))
            } else {
                None
            },
            (None, None) => None,
        },
    }
}

/// How the first container that says so says that its pod failed.
pub open spec fn first_failure(statuses: Seq<ContainerStatusView>) -> Option<FailureView>
    decreases statuses.len(),
{
    if statuses.len() == 0 {
        None
    } else {
        match container_failure(statuses[0]) {
            Some(failure) => Some(failure),
            None => first_failure(statuses.skip(1)),
        }
    }
}

/// How a pod failed.
pub open spec fn failure_of(pod: PodView) -> FailureView {
    match pod.status {
        None => plain_failure(1, "Pod failed (no status)"@),
        Some(status) => {
            let found = match status.container_statuses {
                Some(statuses) => first_failure(statuses),
                None => None,
            };
            match found {
                Some(failure) => failure,
                None => plain_failure(1, "Pod failed"@),
            }
        },
    }
}

fn text_of_option(value: &Option<String>) -> (out: String)
    ensures
        out@ == or_empty(value.deep_view()),
{
    match value {
        Some(text) => text.clone(),
        None => String::new(),
    }
}

/// The parts of a failure.
pub open spec fn failure_parts(parts: (i32, i32, String, bool)) -> FailureView {
    FailureView { state: parts.0, exit_code: parts.1, message: parts.2@, oom: parts.3 }
}

fn failure_in_container(status: &ContainerStatus) -> (out: Option<(i32, i32, String, bool)>)
    ensures
        match out {
            Some(parts) => container_failure(status@) == Some(failure_parts(parts)),
            None => container_failure(status@) is None,
        },
{
    let state = match &status.state {
        None => return None,
        Some(state) => state,
    };
    if let Some(ended) = &state.terminated {
        let exit_code: i32 = ended.exit_code;
        let reason = text_of_option(&ended.reason);
        let message = text_of_option(&ended.message);
        if same_text(reason.as_str(), "OOMKilled") {
            return Some(
                (4, exit_code, "OOMKilled: container exceeded memory limit".to_owned(), true),
            );
        }
        let text = if !is_blank(&message) {
            join3(reason.as_str(), ": ", message.as_str())
        } else if !is_blank(&reason) {
            reason
        } else {
            let code = i64_text(exit_code as i64);
            join2("exit_code=", code.as_str())
        };
        return Some((4, exit_code, text, false));
    }
    if let Some(waiting) = &state.waiting {
        let reason = text_of_option(&waiting.reason);
        if says_pull_failure(reason.as_str()) {
            return Some((4, 1, join2("Image pull failed: ", reason.as_str()), false));
        }
    }
    None
}

/// How a pod failed: the state on the wire, the exit code, a message, and whether
/// it ran out of memory.
pub fn extract_failure_details(pod: &Pod) -> (out: (i32, i32, String, bool))
    ensures
        failure_parts(out) == failure_of(pod@),
{
    let status = match &pod.status {
        None => return (4, 1, "Pod failed (no status)".to_owned(), false),
        Some(status) => status,
    };
    if let Some(statuses) = &status.container_statuses {
        let ghost items = statuses.deep_view();
        let mut i: usize = 0;
        proof {
            assert(items.skip(0) =~= items);
        }
        while i < statuses.len()
            invariant
                i <= statuses@.len(),
                items == statuses.deep_view(),
                pod@.status == Some(status@),
                status@.container_statuses == Some(items),
                first_failure(items) == first_failure(items.skip(i as int)),
            decreases statuses@.len() - i,
        {
            proof {
                assert(items.skip(i as int)[0] == statuses@[i as int]@);
                assert(items.skip(i as int).skip(1) =~= items.skip(i + 1));
            }
            if let Some(parts) = failure_in_container(&statuses[i]) {
                return parts;
            }
            i = i + 1;
        }
    }
    (4, 1, "Pod failed".to_owned(), false)
}

/// The phase of a pod.
pub open spec fn phase_of(pod: PodView) -> Seq<char> {
    match pod.status {
        Some(status) => or_empty(status.phase),
        None => Seq::empty(),
    }
}

/// Why the first container of a pod waits.
pub open spec fn first_wait(pod: PodView) -> Option<Seq<char>> {
    match pod.status {
        Some(status) => match status.container_statuses {
            Some(statuses) => if statuses.len() == 0 {
                None
            } else {
                match statuses[0].state {
                    Some(state) => match state.waiting {
                        Some(waiting) => waiting.reason,
                        None => None,
                    },
                    None => None,
                }
            },
            None => None,
        },
        None => None,
    }
}

/// Whether a pod will never start.
pub open spec fn never_starts(pod: PodView) -> bool {
    &&& phase_of(pod) == "Pending"@
    &&& {
        ||| pod.status matches Some(status) && status.reason == Some(
            "UnexpectedAdmissionError"@,
        )
        ||| first_wait(pod) matches Some(reason) && is_pull_failure(reason)
    }
}

fn pod_never_starts(pod: &Pod) -> (yes: bool)
    ensures
        yes == never_starts(pod@),
{
    let status = match &pod.status {
        None => {
            proof {
                reveal_strlit("Pending");
            }
            return false;
        },
        Some(status) => status,
    };
    let phase = text_of_option(&status.phase);
    if !same_text(phase.as_str(), "Pending") {
        return false;
    }
    if let Some(reason) = &status.reason {
        if same_text(reason.as_str(), "UnexpectedAdmissionError") {
            return true;
        }
    }
    let statuses = match &status.container_statuses {
        None => return false,
        Some(statuses) => statuses,
    };
    if statuses.len() == 0 {
        return false;
    }
    proof {
        assert(statuses.deep_view()[0] == statuses@[0]@);
    }
    let state = match &statuses[0].state {
        None => return false,
        Some(state) => state,
    };
    let waiting = match &state.waiting {
        None => return false,
        Some(waiting) => waiting,
    };
    match &waiting.reason {
        Some(reason) => says_pull_failure(reason.as_str()),
        None => false,
    }
}

/// How a pod ended: the exit code, a message, and whether it ran out of memory;
/// none while it has not.
pub open spec fn ending_of(pod: PodView, pod_name: Seq<char>) -> Option<FailureView> {
    if never_starts(pod) {
        Some(
            plain_failure(
                1,
                match pod.status->0.message {
                    Some(message) => message,
                    None => "Pod rejected by kubelet before starting"@,
                },
            ),
        )
    } else if phase_of(pod) == "Succeeded"@ {
        Some(plain_failure(0, "Pod "@ + pod_name + " Succeeded"@))
    } else if phase_of(pod) == "Failed"@ {
        Some(failure_of(pod))
    } else {
        None
    }
}

fn ending(pod: &Pod, pod_name: &str) -> (out: Option<(i32, i32, String, bool)>)
    ensures
        match out {
            Some(parts) => ending_of(pod@, pod_name@) matches Some(end) && end.exit_code == parts.1
                && end.message == parts.2@ && end.oom == parts.3,
            None => ending_of(pod@, pod_name@) is None,
        },
{
    let phase: String = match &pod.status {
        Some(status) => text_of_option(&status.phase),
        None => String::new(),
    };
    if pod_never_starts(pod) {
        let message: String = match &pod.status {
            Some(status) => match &status.message {
                Some(message) => message.clone(),
                None => "Pod rejected by kubelet before starting".to_owned(),
            },
            None => String::new(),
        };
        return Some((4, 1, message, false));
    }
    if same_text(phase.as_str(), "Succeeded") {
        return Some((4, 0, join3("Pod ", pod_name, " Succeeded"), false));
    }
    if same_text(phase.as_str(), "Failed") {
        return Some(extract_failure_details(pod));
    }
    None
}

/// The delivery that a report about a pod makes.
pub open spec fn delivery_of(
    pod_name: Seq<char>,
    pod_uid: Seq<char>,
    identity: PodExecutionIdentityView,
    report: ReportJobStatusRequestView,
) -> PodCompletionDeliveryView {
    PodCompletionDeliveryView {
        pod_name,
        pod_uid,
        job_id: report.job_id,
        state: report.state,
        exit_code: report.exit_code,
        signal: report.signal,
        message: report.message,
        reporting_node: report.reporting_node,
        run_attempt: report.run_attempt,
        submission_generation: report.submission_generation,
        submission_token: identity.submission_token,
        worker_incarnation: report.worker_incarnation,
        pod_dispatch_token: identity.pod_dispatch_token,
        delivered: false,
    }
}

/// The report about a pod that ended in this way. One that ran out of memory is
/// reported as completed with the signal that stands for it.
pub open spec fn report_of_ending(
    pod: PodView,
    identity: PodExecutionIdentityView,
    end: FailureView,
    oom_signal: i32,
) -> Result<ReportJobStatusRequestView, Seq<char>> {
    if end.oom {
        report_of(pod, identity, wire_number(JobState::Completed), 0, oom_signal, end.message)
    } else {
        report_of(
            pod,
            identity,
            wire_number(completion_state(end.exit_code)),
            end.exit_code,
            0,
            end.message,
        )
    }
}

/// The delivery about a pod; none while the pod has not ended.
pub open spec fn delivery_from(
    pod: PodView,
    identity: PodExecutionIdentityView,
    oom_signal: i32,
) -> Result<Option<PodCompletionDeliveryView>, Seq<char>> {
    match (pod.metadata.name, pod.metadata.uid) {
        (None, _) => Err("terminal Pod has no name"@),
        (_, None) => Err("terminal Pod has no UID"@),
        (Some(pod_name), Some(pod_uid)) => match ending_of(pod, pod_name) {
            None => Ok(None),
            Some(end) => match report_of_ending(pod, identity, end, oom_signal) {
                Err(error) => Err(error),
                Ok(report) => Ok(Some(delivery_of(pod_name, pod_uid, identity, report))),
            },
        },
    }
}

/// The delivery of an outcome.
pub open spec fn delivery_view(outcome: Result<Option<PodCompletionDelivery>, String>) -> Result<
    Option<PodCompletionDeliveryView>,
    Seq<char>,
> {
    match outcome {
        Ok(delivery) => Ok(delivery.deep_view()),
        Err(message) => Err(message@),
    }
}

/// The delivery about a pod; none while the pod has not ended. `oom_signal` is
/// the signal that a process killed for want of memory is reported with.
pub fn completion_delivery_from_pod(
    pod: &Pod,
    identity: &PodExecutionIdentity,
    oom_signal: i32,
) -> (out: Result<Option<PodCompletionDelivery>, String>)
    ensures
        delivery_view(out) == delivery_from(pod@, identity@, oom_signal),
{
    let pod_name = match &pod.metadata.name {
        None => return Err("terminal Pod has no name".to_owned()),
        Some(name) => name,
    };
    let pod_uid = match &pod.metadata.uid {
        None => return Err("terminal Pod has no UID".to_owned()),
        Some(uid) => uid,
    };
    let (_, exit_code, message, oom) = match ending(pod, pod_name.as_str()) {
        None => return Ok(None),
        Some(parts) => parts,
    };
    let outcome = if oom {
        completion_report_from_pod(
            pod,
            identity,
            JobState::Completed.to_proto_i32(),
            0,
            oom_signal,
            message,
        )
    } else {
        completion_report_from_pod(
            pod,
            identity,
            JobState::completion_state_for_exit_code(exit_code).to_proto_i32(),
            exit_code,
            0,
            message,
        )
    };
    match outcome {
        Err(error) => Err(error),
        Ok(report) => {
            let delivery = PodCompletionDelivery {
                pod_name: pod_name.clone(),
                pod_uid: pod_uid.clone(),
                job_id: report.job_id,
                state: report.state,
                exit_code: report.exit_code,
                signal: report.signal,
                message: report.message,
                reporting_node: report.reporting_node,
                run_attempt: report.run_attempt,
                submission_generation: report.submission_generation,
                submission_token: identity.submission_token.clone(),
                worker_incarnation: report.worker_incarnation,
                pod_dispatch_token: identity.pod_dispatch_token.clone(),
                delivered: false,
            };
            Ok(Some(delivery))
        },
    }
}

/// The identity that a watched pod carries and the job that must be read to
/// verify it; none for a pod that is passed over.
pub open spec fn watched(pod: PodView) -> Option<(PodExecutionIdentityView, OwnerKeyView)> {
    match carried_identity(pod.metadata) {
        Err(_) => None,
        Ok(identity) => match owner_to_verify(pod, identity) {
            None => None,
            Some(key) => Some((identity, key)),
        },
    }
}

/// The identity that a watched pod carries and the job that must be read to
/// verify it; none for a pod that is passed over.
pub fn watch_pods(pod: &Pod) -> (out: Option<(PodExecutionIdentity, OwnerKey)>)
    ensures
        match out {
            None => watched(pod@) is None,
            Some((identity, key)) => watched(pod@) == Some((identity@, key@)),
        },
{
    match PodExecutionIdentity::from_pod(pod) {
        Err(_) => None,
        Ok(identity) => match claimed_owner(pod, &identity) {
            None => None,
            Some(key) => Some((identity, key)),
        },
    }
}

/// The delivery to store for a watched pod, given the job that was read.
pub open spec fn watched_delivery(
    pod: PodView,
    identity: PodExecutionIdentityView,
    job: SpurJobView,
    oom_signal: i32,
) -> Result<Option<PodCompletionDeliveryView>, Seq<char>> {
    if owner_verified(pod, identity, job) {
        delivery_from(pod, identity, oom_signal)
    } else {
        Ok(None)
    }
}

/// The delivery to store for a watched pod, given the job that was read; none
/// where that job does not own and record the pod, or the pod has not ended.
pub fn watched_completion(
    pod: &Pod,
    identity: &PodExecutionIdentity,
    job: &SpurJob,
    oom_signal: i32,
) -> (out: Result<Option<PodCompletionDelivery>, String>)
    ensures
        delivery_view(out) == watched_delivery(pod@, identity@, job@, oom_signal),
{
    if verified_owner_for_pod(pod, identity, job) {
        completion_delivery_from_pod(pod, identity, oom_signal)
    } else {
        Ok(None)
    }
}

/// What a watched pod reports is stored only for the very job that created it:
/// the job's UID is the one that the pod names, and its status records the pod's
/// UID and dispatch token under the submission that the pod was dispatched for.
pub proof fn law_watched_completion_is_bound(
    pod: PodView,
    identity: PodExecutionIdentityView,
    job: SpurJobView,
    oom_signal: i32,
)
    ensures
        watched_delivery(pod, identity, job, oom_signal) matches Ok(Some(delivery)) ==> {
            &&& watched(pod) matches Some((carried, key)) && carried == identity
                && job.metadata.uid == Some(key.uid)
            &&& job.status matches Some(status) && {
                &&& status.spur_job_id == Some(delivery.job_id)
                &&& status.submission_generation == Some(delivery.submission_generation)
                &&& status.submission_token == Some(delivery.submission_token)
                &&& lookup(status.pod_uids, delivery.pod_name) == Some(delivery.pod_uid)
                &&& lookup(status.pod_dispatch_tokens, delivery.pod_name) == Some(
                    delivery.pod_dispatch_token,
                )
            }
        },
{
}

/// Whether a delivery names its execution completely.
pub open spec fn names_execution(delivery: PodCompletionDeliveryView) -> bool {
    &&& delivery.pod_uid.len() > 0
    &&& delivery.submission_generation.len() > 0
    &&& delivery.submission_token.len() > 0
    &&& delivery.worker_incarnation.len() > 0
    &&& delivery.pod_dispatch_token.len() > 0
    &&& delivery.reporting_node.len() > 0
    &&& delivery.run_attempt != 0
}

/// The report that a delivery makes.
pub open spec fn report_of_delivery(
    delivery: PodCompletionDeliveryView,
) -> ReportJobStatusRequestView {
    ReportJobStatusRequestView {
        job_id: delivery.job_id,
        state: delivery.state,
        exit_code: delivery.exit_code,
        signal: delivery.signal,
        message: delivery.message,
        drain_node: false,
        drain_reason: Seq::empty(),
        reporting_node: delivery.reporting_node,
        run_attempt: delivery.run_attempt,
        submission_generation: delivery.submission_generation,
        worker_incarnation: delivery.worker_incarnation,
        submission_token: delivery.submission_token,
    }
}

/// The report that a delivery makes, where `checked` says whether its state and
/// exit code may be reported together.
pub open spec fn request_from_delivery(
    delivery: PodCompletionDeliveryView,
    checked: Result<(), Seq<char>>,
) -> Result<ReportJobStatusRequestView, ReconcileErrorView> {
    if !names_execution(delivery) {
        Err(
            ReconcileErrorView::Other(
                "completion delivery for Pod "@ + delivery.pod_name + " lacks exact identity"@,
            ),
        )
    } else if state_of_number(delivery.state) is None {
        Err(
            ReconcileErrorView::Other(
                "completion delivery for Pod "@ + delivery.pod_name + " has invalid state "@
                    + signed_decimal(delivery.state as int),
            ),
        )
    } else {
        match checked {
            Err(message) => Err(ReconcileErrorView::Other(message)),
            Ok(_) => Ok(report_of_delivery(delivery)),
        }
    }
}

/// The report that a delivery makes, where `checked` says whether its state and
/// exit code may be reported together.
pub fn completion_request_from_delivery(
    delivery: &PodCompletionDelivery,
    checked: &Result<(), String>,
) -> (out: Result<ReportJobStatusRequest, ReconcileError>)
    ensures
        reconciled(out) == request_from_delivery(delivery@, check_view(*checked)),
{
    if is_blank(&delivery.pod_uid) || is_blank(&delivery.submission_generation) || is_blank(
        &delivery.submission_token,
    ) || is_blank(&delivery.worker_incarnation) || is_blank(&delivery.pod_dispatch_token)
        || is_blank(&delivery.reporting_node) || delivery.run_attempt == 0 {
        return Err(
            ReconcileError::Other(
                join3(
                    "completion delivery for Pod ",
                    delivery.pod_name.as_str(),
                    " lacks exact identity",
                ),
            ),
        );
    }
    if state_from_number(delivery.state).is_none() {
        let number = i64_text(delivery.state as i64);
        let head = join3(
            "completion delivery for Pod ",
            delivery.pod_name.as_str(),
            " has invalid state ",
        );
        return Err(ReconcileError::Other(join2(head.as_str(), number.as_str())));
    }
    if let Err(message) = checked {
        return Err(ReconcileError::Other(message.clone()));
    }
    Ok(
        ReportJobStatusRequest {
            job_id: delivery.job_id,
            state: delivery.state,
            exit_code: delivery.exit_code,
            signal: delivery.signal,
            message: delivery.message.clone(),
            drain_node: false,
            drain_reason: String::new(),
            reporting_node: delivery.reporting_node.clone(),
            run_attempt: delivery.run_attempt,
            submission_generation: delivery.submission_generation.clone(),
            worker_incarnation: delivery.worker_incarnation.clone(),
            submission_token: delivery.submission_token.clone(),
        },
    )
}

/// Whether a refused report may be moot, so that the controller is asked about
/// the job.
pub fn refusal_may_be_moot(code: Code) -> (yes: bool)
    ensures
        yes == (code is NotFound || code is FailedPrecondition),
{
    match code {
        Code::NotFound => true,
        Code::FailedPrecondition => true,
        _ => false,
    }
}

/// Whether what the controller says of a job shows that a refused delivery is
/// moot.
pub open spec fn delivery_moot(
    info: JobInfoView,
    delivery: PodCompletionDeliveryView,
    report_code: Code,
) -> bool {
    &&& info.job_id == delivery.job_id
    &&& info.submission_generation == delivery.submission_generation
    &&& info.submission_token == delivery.submission_token
    &&& match report_code {
        Code::NotFound => info.run_attempt >= delivery.run_attempt && (state_of_number(
            info.state,
        ) matches Some(state) && state_is_final(state)),
        Code::FailedPrecondition => info.run_attempt > delivery.run_attempt,
        _ => false,
    }
}

/// Whether what the controller says of a job shows that a refused delivery is
/// moot: the very submission has ended, or a later attempt of it is under way.
pub fn controller_job_makes_delivery_moot(
    info: &JobInfo,
    delivery: &PodCompletionDelivery,
    report_code: Code,
) -> (yes: bool)
    ensures
        yes == delivery_moot(info@, delivery@, report_code),
{
    if info.job_id != delivery.job_id || info.submission_generation
        != delivery.submission_generation || info.submission_token != delivery.submission_token {
        return false;
    }
    match report_code {
        Code::NotFound => info.run_attempt >= delivery.run_attempt && (match state_from_number(
            info.state,
        ) {
            Some(state) => state.is_terminal(),
            None => false,
        }),
        Code::FailedPrecondition => info.run_attempt > delivery.run_attempt,
        _ => false,
    }
}

/// A delivery as it was before it was acknowledged.
pub open spec fn payload(delivery: PodCompletionDeliveryView) -> PodCompletionDeliveryView {
    PodCompletionDeliveryView { delivered: false, ..delivery }
}

/// Whether two deliveries are the same but for the acknowledgement.
pub fn same_completion_payload(left: &PodCompletionDelivery, right: &PodCompletionDelivery) -> (same:
    bool)
    ensures
        same == (payload(left@) == payload(right@)),
{
    let mut a = left.copy_of();
    let mut b = right.copy_of();
    a.delivered = false;
    b.delivered = false;
    proof {
        assert(a@ =~= payload(left@));
        assert(b@ =~= payload(right@));
    }
    a.equals(&b)
}

/// Stores a delivery under the UID of its pod, if the job still has this version.
#[derive(Clone, Debug, Default)]
pub struct CompletionPatch {
    pub resource_version: String,
    pub pod_uid: String,
    pub delivery: PodCompletionDelivery,
}

/// What a [`CompletionPatch`] holds.
#[verifier::ext_equal]
pub struct CompletionPatchView {
    pub resource_version: Seq<char>,
    pub pod_uid: Seq<char>,
    pub delivery: PodCompletionDeliveryView,
}

impl View for CompletionPatch {
    type V = CompletionPatchView;

    open spec fn view(&self) -> CompletionPatchView {
        CompletionPatchView {
            resource_version: self.resource_version.deep_view(),
            pod_uid: self.pod_uid.deep_view(),
            delivery: self.delivery.deep_view(),
        }
    }
}

impl DeepView for CompletionPatch {
    type V = CompletionPatchView;

    open spec fn deep_view(&self) -> CompletionPatchView {
        self@
    }
}

impl Plain for CompletionPatch {
    fn equals(&self, other: &Self) -> (same: bool) {
        self.resource_version.equals(&other.resource_version)
            && self.pod_uid.equals(&other.pod_uid)
            && self.delivery.equals(&other.delivery)
    }

    fn copy_of(&self) -> (out: Self) {
        CompletionPatch {
            resource_version: self.resource_version.copy_of(),
            pod_uid: self.pod_uid.copy_of(),
            delivery: self.delivery.copy_of(),
        }
    }
}

/// What to do about a stored delivery.
#[derive(Debug)]
pub enum OutboxStep {
    /// Nothing: it is as it should be.
    Settled,
    /// Store it.
    Persist(CompletionPatch),
}

/// What an [`OutboxStep`] holds.
pub enum OutboxStepView {
    Settled,
    Persist(CompletionPatchView),
}

impl View for OutboxStep {
    type V = OutboxStepView;

    open spec fn view(&self) -> OutboxStepView {
        match self {
            OutboxStep::Settled => OutboxStepView::Settled,
            OutboxStep::Persist(patch) => OutboxStepView::Persist(patch@),
        }
    }
}

/// The key of the job that a delivery is stored in.
pub open spec fn outbox_owner(owner: SpurJobView) -> Result<OwnerKeyView, ReconcileErrorView> {
    match (owner.metadata.namespace, owner.metadata.name, owner.metadata.uid) {
        (None, _, _) => Err(ReconcileErrorView::Other("owning SpurJob has no namespace"@)),
        (_, None, _) => Err(ReconcileErrorView::Other("owning SpurJob has no name"@)),
        (_, _, None) => Err(ReconcileErrorView::Other("owning SpurJob has no UID"@)),
        (Some(namespace), Some(name), Some(uid)) => Ok(OwnerKeyView { namespace, name, uid }),
    }
}

/// The key of the job that a delivery is stored in.
pub fn outbox_key(owner: &SpurJob) -> (out: Result<OwnerKey, ReconcileError>)
    ensures
        reconciled(out) == outbox_owner(owner@),
{
    match (&owner.metadata.namespace, &owner.metadata.name, &owner.metadata.uid) {
        (None, _, _) => Err(job_error("owning SpurJob has no namespace")),
        (_, None, _) => Err(job_error("owning SpurJob has no name")),
        (_, _, None) => Err(job_error("owning SpurJob has no UID")),
        (Some(namespace), Some(name), Some(uid)) => Ok(
            OwnerKey { namespace: namespace.clone(), name: name.clone(), uid: uid.clone() },
        ),
    }
}

/// What to do so that a delivery is stored in its job.
pub open spec fn queued(
    owner_uid: Seq<char>,
    pod: PodView,
    identity: PodExecutionIdentityView,
    delivery: PodCompletionDeliveryView,
    fresh: SpurJobView,
) -> Result<OutboxStepView, ReconcileErrorView> {
    if fresh.metadata.uid != Some(owner_uid) {
        Err(
            ReconcileErrorView::Other(
                "owning SpurJob was replaced while queueing completion"@,
            ),
        )
    } else {
        match fresh.status {
            None => Err(ReconcileErrorView::Other("owning SpurJob has no durable status"@)),
            Some(status) => if !controlled_by(pod.metadata, owner_uid) || !binds_pod(
                status,
                delivery.pod_name,
                delivery.pod_uid,
                identity,
            ) {
                Err(
                    ReconcileErrorView::Other(
                        "terminal Pod is not bound by exact durable provenance"@,
                    ),
                )
            } else {
                match status.completion(delivery.pod_uid) {
                    Some(existing) => if payload(existing) == payload(delivery) {
                        Ok(OutboxStepView::Settled)
                    } else {
                        Err(
                            ReconcileErrorView::Other(
                                "Pod UID "@ + delivery.pod_uid
                                    + " is already bound to a different completion payload"@,
                            ),
                        )
                    },
                    None => match fresh.metadata.resource_version {
                        None => Err(
                            ReconcileErrorView::Other("owning SpurJob has no resourceVersion"@),
                        ),
                        Some(resource_version) => Ok(
                            OutboxStepView::Persist(
                                CompletionPatchView {
                                    resource_version,
                                    pod_uid: delivery.pod_uid,
                                    delivery,
                                },
                            ),
                        ),
                    },
                }
            },
        }
    }
}

/// What to do so that a delivery is stored in its job.
pub fn persist_completion_delivery(
    owner_uid: &str,
    pod: &Pod,
    identity: &PodExecutionIdentity,
    delivery: &PodCompletionDelivery,
    fresh: &SpurJob,
) -> (out: Result<OutboxStep, ReconcileError>)
    ensures
        reconciled(out) == queued(owner_uid@, pod@, identity@, delivery@, fresh@),
{
    if !opt_reads(&fresh.metadata.uid, &owner_uid.to_owned()) {
        return Err(job_error("owning SpurJob was replaced while queueing completion"));
    }
    let status = match &fresh.status {
        None => return Err(job_error("owning SpurJob has no durable status")),
        Some(status) => status,
    };
    if !resource_owned_by(&pod.metadata, owner_uid) || !status_binds_pod(
        status,
        delivery.pod_name.as_str(),
        delivery.pod_uid.as_str(),
        identity,
    ) {
        return Err(job_error("terminal Pod is not bound by exact durable provenance"));
    }
    if let Some(existing) = status.completion(delivery.pod_uid.as_str()) {
        if same_completion_payload(existing, delivery) {
            return Ok(OutboxStep::Settled);
        }
        return Err(
            ReconcileError::Other(
                join3(
                    "Pod UID ",
                    delivery.pod_uid.as_str(),
                    " is already bound to a different completion payload",
                ),
            ),
        );
    }
    match &fresh.metadata.resource_version {
        None => Err(job_error("owning SpurJob has no resourceVersion")),
        Some(resource_version) => Ok(
            OutboxStep::Persist(
                CompletionPatch {
                    resource_version: resource_version.clone(),
                    pod_uid: delivery.pod_uid.clone(),
                    delivery: delivery.copy_of(),
                },
            ),
        ),
    }
}

/// What follows the update that stores a delivery.
pub fn completion_queued(attempt: u32, reply: UpdateReply) -> (out: Result<
    NextAttempt,
    ReconcileError,
>)
    ensures
        attempted(out) == after_job_update(
            attempt,
            reply,
            "concurrent completion-outbox updates did not converge"@,
        ),
{
    follow_job_update(attempt, reply, "concurrent completion-outbox updates did not converge")
}

/// What to do so that a stored delivery is marked as acknowledged.
pub open spec fn acknowledged(
    pod_uid: Seq<char>,
    expected: PodCompletionDeliveryView,
    fresh: SpurJobView,
) -> Result<OutboxStepView, ReconcileErrorView> {
    match fresh.status {
        None => Err(ReconcileErrorView::Other("owning SpurJob has no durable status"@)),
        Some(status) => match status.completion(pod_uid) {
            None => Err(
                ReconcileErrorView::Other(
                    "completion outbox entry for Pod UID "@ + pod_uid + " disappeared"@,
                ),
            ),
            Some(current) => if payload(current) != payload(expected) {
                Err(
                    ReconcileErrorView::Other(
                        "completion outbox entry for Pod UID "@ + pod_uid + " changed payload"@,
                    ),
                )
            } else if current.delivered {
                Ok(OutboxStepView::Settled)
            } else {
                match fresh.metadata.resource_version {
                    None => Err(
                        ReconcileErrorView::Other("owning SpurJob has no resourceVersion"@),
                    ),
                    Some(resource_version) => Ok(
                        OutboxStepView::Persist(
                            CompletionPatchView {
                                resource_version,
                                pod_uid,
                                delivery: PodCompletionDeliveryView {
                                    delivered: true,
                                    ..current
                                },
                            },
                        ),
                    ),
                }
            },
        },
    }
}

/// What to do so that a stored delivery is marked as acknowledged.
pub fn mark_completion_delivered(
    pod_uid: &str,
    expected: &PodCompletionDelivery,
    fresh: &SpurJob,
) -> (out: Result<OutboxStep, ReconcileError>)
    ensures
        reconciled(out) == acknowledged(pod_uid@, expected@, fresh@),
{
    let status = match &fresh.status {
        None => return Err(job_error("owning SpurJob has no durable status")),
        Some(status) => status,
    };
    let current = match status.completion(pod_uid) {
        None => return Err(
            ReconcileError::Other(
                join3("completion outbox entry for Pod UID ", pod_uid, " disappeared"),
            ),
        ),
        Some(current) => current,
    };
    if !same_completion_payload(current, expected) {
        return Err(
            ReconcileError::Other(
                join3("completion outbox entry for Pod UID ", pod_uid, " changed payload"),
            ),
        );
    }
    if current.delivered {
        return Ok(OutboxStep::Settled);
    }
    match &fresh.metadata.resource_version {
        None => Err(job_error("owning SpurJob has no resourceVersion")),
        Some(resource_version) => {
            let mut delivery = current.copy_of();
            delivery.delivered = true;
            proof {
                assert(delivery@ =~= (PodCompletionDeliveryView { delivered: true, ..current@ }));
            }
            Ok(
                OutboxStep::Persist(
                    CompletionPatch {
                        resource_version: resource_version.clone(),
                        pod_uid: pod_uid.to_owned(),
                        delivery,
                    },
                ),
            )
        },
    }
}

/// What follows the update that marks a delivery.
pub fn completion_marked(attempt: u32, reply: UpdateReply) -> (out: Result<
    NextAttempt,
    ReconcileError,
>)
    ensures
        attempted(out) == after_job_update(
            attempt,
            reply,
            "concurrent completion acknowledgement updates did not converge"@,
        ),
{
    follow_job_update(
        attempt,
        reply,
        "concurrent completion acknowledgement updates did not converge",
    )
}

/// The stored deliveries that are not acknowledged.
pub open spec fn unacknowledged(entries: Seq<CompletionEntryView>) -> Seq<CompletionEntryView> {
    entries.filter(|entry: CompletionEntryView| !entry.delivery.delivered)
}

proof fn lemma_unacknowledged_ascend(entries: Seq<CompletionEntryView>)
    requires
        ascending(entries),
    ensures
        ascending(unacknowledged(entries)),
    decreases entries.len(),
{
    reveal(Seq::filter);
    if entries.len() > 0 {
        let before = entries.drop_last();
        let last = entries.last();
        lemma_unacknowledged_ascend(before);
        let kept = unacknowledged(before);
        let out = unacknowledged(entries);
        assert forall|i: int, j: int| 0 <= i < j < out.len() implies {
            &&& text_le((#[trigger] out[i]).pod_uid, (#[trigger] out[j]).pod_uid)
            &&& out[i].pod_uid != out[j].pod_uid
        } by {
            assert(out[i] == kept[i]);
            if j < kept.len() {
                assert(out[j] == kept[j]);
            } else {
                assert(out[j] == last);
                assert(kept.contains(kept[i]));
                law_pending_until_acknowledged(before, kept[i]);
                let k = choose|k: int| 0 <= k < before.len() && before[k] == kept[i];
                assert(entries[k] == kept[i]);
                assert(entries[entries.len() - 1] == last);
            }
        }
    }
}

/// The stored deliveries that are not acknowledged, in the order of the UIDs of
/// their pods, as they are stored.
pub fn pending_completion_deliveries(status: &SpurJobStatus) -> (out: Vec<CompletionEntry>)
    ensures
        out.deep_view() == unacknowledged(status@.completion_deliveries),
        status@.wf() ==> ascending(out.deep_view()),
{
    proof {
        if status@.wf() {
            lemma_unacknowledged_ascend(status@.completion_deliveries);
        }
    }
    let entries = &status.completion_deliveries;
    let ghost items = status@.completion_deliveries;
    let ghost open = |entry: CompletionEntryView| !entry.delivery.delivered;
    let mut out: Vec<CompletionEntry> = Vec::new();
    let mut i: usize = 0;
    proof {
        assert(items.take(0) =~= Seq::<CompletionEntryView>::empty());
        reveal(Seq::filter);
        assert(out.deep_view() =~= Seq::<CompletionEntryView>::empty());
    }
    while i < entries.len()
        invariant
            i <= entries@.len(),
            items == entries.deep_view(),
            open == (|entry: CompletionEntryView| !entry.delivery.delivered),
            out.deep_view() == items.take(i as int).filter(open),
        decreases entries@.len() - i,
    {
        let entry = &entries[i];
        proof {
            reveal(Seq::filter);
            assert(items.take(i + 1).drop_last() =~= items.take(i as int));
            assert(items.take(i + 1).last() == entry@);
        }
        if !entry.delivery.delivered {
            let ghost before = out.deep_view();
            out.push(entry.copy_of());
            proof {
                assert(out.deep_view() =~= before.push(entry@));
            }
        }
        i = i + 1;
    }
    proof {
        assert(items.take(i as int) =~= items);
    }
    out
}

/// Whether a stored delivery belongs to the submission that its job records.
pub open spec fn delivery_belongs(
    status: SpurJobStatusView,
    pod_uid: Seq<char>,
    delivery: PodCompletionDeliveryView,
) -> bool {
    &&& status.spur_job_id == Some(delivery.job_id)
    &&& status.submission_generation == Some(delivery.submission_generation)
    &&& status.submission_token == Some(delivery.submission_token)
    &&& lookup(status.pod_dispatch_tokens, delivery.pod_name) == Some(delivery.pod_dispatch_token)
    &&& lookup(status.pod_uids, delivery.pod_name) == Some(pod_uid)
    &&& delivery.pod_uid == pod_uid
}

/// The report to send for a stored delivery.
pub open spec fn deliverable(
    status: SpurJobStatusView,
    entry: CompletionEntryView,
    checked: Result<(), Seq<char>>,
) -> Result<ReportJobStatusRequestView, ReconcileErrorView> {
    if !delivery_belongs(status, entry.pod_uid, entry.delivery) {
        Err(
            ReconcileErrorView::Other(
                "completion outbox entry for Pod UID "@ + entry.pod_uid
                    + " does not match its owning submission"@,
            ),
        )
    } else {
        request_from_delivery(entry.delivery, checked)
    }
}

/// The report to send for a stored delivery.
pub fn deliver_pending_completion(
    status: &SpurJobStatus,
    entry: &CompletionEntry,
    checked: &Result<(), String>,
) -> (out: Result<ReportJobStatusRequest, ReconcileError>)
    ensures
        reconciled(out) == deliverable(status@, entry@, check_view(*checked)),
{
    let delivery = &entry.delivery;
    let belongs = status.spur_job_id.equals(&Some(delivery.job_id)) && opt_reads(
        &status.submission_generation,
        &delivery.submission_generation,
    ) && opt_reads(&status.submission_token, &delivery.submission_token) && holds(
        status.pod_dispatch_tokens.get(delivery.pod_name.as_str()),
        &delivery.pod_dispatch_token,
    ) && holds(status.pod_uids.get(delivery.pod_name.as_str()), &entry.pod_uid)
        && delivery.pod_uid == entry.pod_uid;
    if !belongs {
        return Err(
            ReconcileError::Other(
                join3(
                    "completion outbox entry for Pod UID ",
                    entry.pod_uid.as_str(),
                    " does not match its owning submission",
                ),
            ),
        );
    }
    completion_request_from_delivery(delivery, checked)
}

/// Which job ID's pods a job has to look at; none where it names no submission.
pub open spec fn rescan_of(owner: SpurJobView) -> Result<Option<u32>, ReconcileErrorView> {
    match owner.status {
        None => Err(ReconcileErrorView::Other("owning SpurJob has no durable status"@)),
        Some(status) => match status.spur_job_id {
            None => Ok(None),
            Some(job_id) => if nonempty(status.submission_generation) is None || nonempty(
                status.submission_token,
            ) is None {
                Ok(None)
            } else if owner.metadata.namespace is None {
                Err(ReconcileErrorView::Other("owning SpurJob has no namespace"@))
            } else if owner.metadata.uid is None {
                Err(ReconcileErrorView::Other("owning SpurJob has no UID"@))
            } else {
                Ok(Some(job_id))
            },
        },
    }
}

/// Which job ID's pods a job has to look at; none where it names no submission.
pub fn rescan_terminal_pods(owner: &SpurJob) -> (out: Result<Option<u32>, ReconcileError>)
    ensures
        match out {
            Ok(job_id) => rescan_of(owner@) == Ok::<Option<u32>, ReconcileErrorView>(job_id),
            Err(error) => rescan_of(owner@) == Err::<Option<u32>, ReconcileErrorView>(error@),
        },
{
    let status = match &owner.status {
        None => return Err(job_error("owning SpurJob has no durable status")),
        Some(status) => status,
    };
    let job_id: u32 = match &status.spur_job_id {
        None => return Ok(None),
        Some(job_id) => *job_id,
    };
    let generation = text_of_option(&status.submission_generation);
    let token = text_of_option(&status.submission_token);
    if is_blank(&generation) || is_blank(&token) {
        return Ok(None);
    }
    if owner.metadata.namespace.is_none() {
        return Err(job_error("owning SpurJob has no namespace"));
    }
    if owner.metadata.uid.is_none() {
        return Err(job_error("owning SpurJob has no UID"));
    }
    Ok(Some(job_id))
}

/// Whether a listed pod is one whose completion the job has to store.
pub open spec fn to_be_rescanned(
    owner_uid: Seq<char>,
    status: SpurJobStatusView,
    pod: PodView,
) -> bool {
    let meta = pod.metadata;
    &&& controlled_by(meta, owner_uid)
    &&& carried_identity(meta) matches Ok(identity)
    &&& meta.name is Some
    &&& meta.uid is Some
    &&& binds_pod(status, meta.name->0, meta.uid->0, identity)
    &&& marked_recorded(meta)
    &&& status.completion(meta.uid->0) is None
}

/// The delivery to store for a listed pod; none where there is nothing to store.
pub open spec fn rescanned(
    owner_uid: Seq<char>,
    status: SpurJobStatusView,
    pod: PodView,
    oom_signal: i32,
) -> Result<Option<PodCompletionDeliveryView>, Seq<char>> {
    if to_be_rescanned(owner_uid, status, pod) {
        delivery_from(pod, carried_identity(pod.metadata)->Ok_0, oom_signal)
    } else {
        Ok(None)
    }
}

/// The delivery to store for a listed pod; none where there is nothing to store.
pub fn rescan_pod(
    owner_uid: &str,
    status: &SpurJobStatus,
    pod: &Pod,
    oom_signal: i32,
) -> (out: Result<Option<PodCompletionDelivery>, String>)
    ensures
        delivery_view(out) == rescanned(owner_uid@, status@, pod@, oom_signal),
{
    if !resource_owned_by(&pod.metadata, owner_uid) {
        return Ok(None);
    }
    let identity = match PodExecutionIdentity::from_pod(pod) {
        Err(_) => return Ok(None),
        Ok(identity) => identity,
    };
    let name = match &pod.metadata.name {
        None => return Ok(None),
        Some(name) => name,
    };
    let uid = match &pod.metadata.uid {
        None => return Ok(None),
        Some(uid) => uid,
    };
    if !status_binds_pod(status, name.as_str(), uid.as_str(), &identity) || !is_marked_recorded(
        pod,
    ) || status.completion(uid.as_str()).is_some() {
        return Ok(None);
    }
    completion_delivery_from_pod(pod, &identity, oom_signal)
}

/// A late completion keeps the identity that its pod was dispatched with: the
/// delivery, and every report made from it, name that job, generation, attempt,
/// worker and token.
pub proof fn law_delivery_keeps_identity(
    pod: PodView,
    identity: PodExecutionIdentityView,
    oom_signal: i32,
    checked: Result<(), Seq<char>>,
)
    ensures
        delivery_from(pod, identity, oom_signal) matches Ok(Some(delivery)) ==> {
            &&& carried_identity(pod.metadata) == Ok::<PodExecutionIdentityView, Seq<char>>(
                identity,
            )
            &&& pod.metadata.uid == Some(delivery.pod_uid)
            &&& !delivery.delivered
            &&& request_from_delivery(delivery, checked) matches Ok(report) ==> {
                &&& report.job_id == identity.key.job_id
                &&& report.submission_generation == identity.key.submission_generation
                &&& report.run_attempt == identity.key.run_attempt
                &&& report.worker_incarnation == identity.worker_incarnation
                &&& report.submission_token == identity.submission_token
                &&& !report.drain_node
            }
        },
{
}

/// Once a delivery is stored, storing it again changes nothing, whether or not it
/// has been acknowledged; and another delivery for the same pod is refused. The
/// order of what is stored is kept.
pub proof fn law_delivery_is_stored_once(
    owner_uid: Seq<char>,
    pod: PodView,
    identity: PodExecutionIdentityView,
    delivery: PodCompletionDeliveryView,
    other: PodCompletionDeliveryView,
    fresh: SpurJobView,
    acknowledged: bool,
)
    requires
        queued(owner_uid, pod, identity, delivery, fresh) matches Ok(OutboxStepView::Persist(_)),
        other.pod_uid == delivery.pod_uid,
        other.pod_name == delivery.pod_name,
    ensures
        ({
            let status = fresh.status->0;
            let stored = SpurJobView {
                status: Some(
                    SpurJobStatusView {
                        completion_deliveries: filed(
                            status.completion_deliveries,
                            CompletionEntryView {
                                pod_uid: delivery.pod_uid,
                                delivery: PodCompletionDeliveryView {
                                    delivered: acknowledged,
                                    ..delivery
                                },
                            },
                        ),
                        ..status
                    },
                ),
                ..fresh
            };
            &&& status.wf() ==> stored.status->0.wf()
            &&& queued(owner_uid, pod, identity, delivery, stored) == Ok::<
                OutboxStepView,
                ReconcileErrorView,
            >(OutboxStepView::Settled)
            &&& payload(other) != payload(delivery) ==> queued(
                owner_uid,
                pod,
                identity,
                other,
                stored,
            ) is Err
        }),
{
    let status = fresh.status->0;
    let entry = CompletionEntryView {
        pod_uid: delivery.pod_uid,
        delivery: PodCompletionDeliveryView { delivered: acknowledged, ..delivery },
    };
    law_filed_completion_is_found(status.completion_deliveries, entry, delivery.pod_uid);
    if status.wf() {
        law_filing_keeps_the_order(status.completion_deliveries, entry);
    }
}

/// A delivery stays pending until it is acknowledged: what is stored is pending
/// exactly while it is not marked.
pub proof fn law_pending_until_acknowledged(
    entries: Seq<CompletionEntryView>,
    entry: CompletionEntryView,
)
    ensures
        unacknowledged(entries).contains(entry) <==> entries.contains(entry)
            && !entry.delivery.delivered,
    decreases entries.len(),
{
    let open = |e: CompletionEntryView| !e.delivery.delivered;
    reveal(Seq::filter);
    if entries.len() > 0 {
        let before = entries.drop_last();
        law_pending_until_acknowledged(before, entry);
        let kept = before.filter(open);
        assert(entries =~= before.push(entries.last()));
        if entries.contains(entry) {
            let i = choose|i: int| 0 <= i < entries.len() && entries[i] == entry;
            if i < before.len() {
                assert(before[i] == entry);
            }
        }
        if before.contains(entry) {
            let i = choose|i: int| 0 <= i < before.len() && before[i] == entry;
            assert(entries[i] == entry);
        }
        if open(entries.last()) {
            assert(entries.filter(open) == kept.push(entries.last()));
            if kept.contains(entry) {
                let i = choose|i: int| 0 <= i < kept.len() && kept[i] == entry;
                assert(kept.push(entries.last())[i] == entry);
            }
            if entry == entries.last() {
                assert(kept.push(entries.last())[kept.len() as int] == entry);
            }
            if kept.push(entries.last()).contains(entry) && entry != entries.last() {
                let i = choose|i: int|
                    0 <= i < kept.push(entries.last()).len() && kept.push(entries.last())[i]
                        == entry;
                assert(kept[i] == entry);
            }
        }
        if entry == entries.last() {
            assert(entries[entries.len() - 1] == entry);
        }
    }
}

/// A refusal is never explained away by the job's own attempt still being under
/// way, nor by another submission.
pub proof fn law_moot_only_when_superseded(
    info: JobInfoView,
    delivery: PodCompletionDeliveryView,
    report_code: Code,
)
    requires
        delivery_moot(info, delivery, report_code),
    ensures
        info.submission_token == delivery.submission_token,
        info.submission_generation == delivery.submission_generation,
        info.run_attempt > delivery.run_attempt || (report_code is NotFound && (state_of_number(
            info.state,
        ) matches Some(state) && state_is_final(state))),
{
}

/// A container that says nothing of how its pod ended: it has not ended, and it
/// does not wait for an image that cannot be pulled.
pub open spec fn is_silent(status: ContainerStatusView) -> bool {
    status.state matches Some(state) ==> {
        &&& state.terminated is None
        &&& state.waiting matches Some(waiting) ==> waiting.reason != Some("ImagePullBackOff"@)
            && waiting.reason != Some("ErrImagePull"@)
    }
}

/// What the containers of a pod say of themselves.
pub open spec fn containers_of(pod: PodView) -> Seq<ContainerStatusView> {
    match pod.status {
        Some(status) => match status.container_statuses {
            Some(statuses) => statuses,
            None => Seq::empty(),
        },
        None => Seq::empty(),
    }
}

/// How a container ended.
pub open spec fn termination_of(status: ContainerStatusView) -> Option<ContainerTerminationView> {
    match status.state {
        Some(state) => state.terminated,
        None => None,
    }
}

/// What a container waits for.
pub open spec fn wait_of(status: ContainerStatusView) -> Option<Seq<char>> {
    match status.state {
        Some(state) => match state.waiting {
            Some(waiting) => waiting.reason,
            None => None,
        },
        None => None,
    }
}

/// Whether a pod is in this phase and `ended` is how the first of its containers
/// that says anything of it ended.
pub open spec fn first_ended(
    pod: PodView,
    phase: Seq<char>,
    k: int,
    ended: ContainerTerminationView,
) -> bool {
    &&& pod.status matches Some(status)
    &&& status.phase == Some(phase)
    &&& 0 <= k < containers_of(pod).len()
    &&& termination_of(containers_of(pod)[k]) == Some(ended)
    &&& forall|j: int| 0 <= j < k ==> is_silent(#[trigger] containers_of(pod)[j])
}

proof fn lemma_first_failure(statuses: Seq<ContainerStatusView>, k: int)
    requires
        0 <= k < statuses.len(),
        forall|j: int| 0 <= j < k ==> is_silent(#[trigger] statuses[j]),
    ensures
        container_failure(statuses[k]) is Some ==> first_failure(statuses) == container_failure(
            statuses[k],
        ),
    decreases statuses.len(),
{
    reveal_strlit("ImagePullBackOff");
    reveal_strlit("ErrImagePull");
    if k > 0 {
        assert(is_silent(statuses[0]));
        let rest = statuses.skip(1);
        assert forall|j: int| 0 <= j < k - 1 implies is_silent(#[trigger] rest[j]) by {
            assert(rest[j] == statuses[j + 1]);
        }
        lemma_first_failure(rest, k - 1);
    }
}

proof fn lemma_phases_differ()
    ensures
        "Failed"@ != "Pending"@,
        "Failed"@ != "Succeeded"@,
        "Pending"@ != "Succeeded"@,
        "Running"@ != "Pending"@,
        "Running"@ != "Succeeded"@,
        "Running"@ != "Failed"@,
        "Failed"@.len() > 0,
        "Succeeded"@.len() > 0,
        "Pending"@.len() > 0,
        "OOMKilled"@.len() > 0,
{
    reveal_strlit("Failed");
    reveal_strlit("Pending");
    reveal_strlit("Succeeded");
    reveal_strlit("Running");
    reveal_strlit("OOMKilled");
    assert("Failed"@.len() != "Succeeded"@.len());
    assert("Failed"@.len() != "Pending"@.len());
    assert("Running"@[0] != "Pending"@[0]);
}

/// A failed pod is reported with the exit code of the container that ended it, and
/// with no signal: as a failure unless that code is zero. The report says why, in
/// the words of the container where it has any.
pub proof fn law_failed_pod_reports_its_exit_code(
    pod: PodView,
    identity: PodExecutionIdentityView,
    oom_signal: i32,
    k: int,
    ended: ContainerTerminationView,
)
    requires
        first_ended(pod, "Failed"@, k, ended),
        ended.reason != Some("OOMKilled"@),
    ensures
        delivery_from(pod, identity, oom_signal) matches Ok(found) ==> found matches Some(delivery)
            && {
            &&& delivery.exit_code == ended.exit_code
            &&& delivery.signal == 0
            &&& ended.exit_code != 0 ==> delivery.state == wire_number(JobState::Failed)
            &&& ended.exit_code == 0 ==> delivery.state == wire_number(JobState::Completed)
            &&& ended.message matches Some(message) ==> (message.len() > 0
                ==> message.is_suffix_of(delivery.message))
            &&& ended.reason matches Some(reason) ==> reason.is_prefix_of(delivery.message)
        },
{
    lemma_phases_differ();
    let statuses = pod.status->0.container_statuses->0;
    lemma_first_failure(statuses, k);
    if let Ok(Some(delivery)) = delivery_from(pod, identity, oom_signal) {
        if let Some(reason) = ended.reason {
            assert(reason.is_prefix_of(delivery.message)) by {
                assert(delivery.message.len() >= reason.len());
                assert(reason =~= delivery.message.subrange(0, reason.len() as int));
            }
        }
        if let Some(message) = ended.message {
            if message.len() > 0 {
                assert(message =~= delivery.message.subrange(
                    delivery.message.len() - message.len(),
                    delivery.message.len() as int,
                ));
            }
        }
    }
}

/// A pod that ran out of memory is reported with the signal that stands for it,
/// and its own exit code is not taken for one of the program.
pub proof fn law_memory_kill_is_reported_by_its_signal(
    pod: PodView,
    identity: PodExecutionIdentityView,
    oom_signal: i32,
    k: int,
    ended: ContainerTerminationView,
)
    requires
        first_ended(pod, "Failed"@, k, ended),
        ended.reason == Some("OOMKilled"@),
    ensures
        delivery_from(pod, identity, oom_signal) matches Ok(found) ==> found matches Some(delivery)
            && {
            &&& delivery.signal == oom_signal
            &&& delivery.exit_code == 0
            &&& delivery.state == wire_number(JobState::Completed)
            &&& "OOMKilled"@.is_prefix_of(delivery.message)
        },
{
    lemma_phases_differ();
    lemma_first_failure(pod.status->0.container_statuses->0, k);
    reveal_strlit("OOMKilled");
    reveal_strlit("OOMKilled: container exceeded memory limit");
    assert("OOMKilled"@ =~= "OOMKilled: container exceeded memory limit"@.subrange(0, 9));
}

/// Success is reported only of a pod that succeeded, or whose container ended with
/// exit code zero or ran out of memory. The state that is reported never
/// contradicts the exit code, and only a want of memory has a signal.
pub proof fn law_success_is_never_made_up(
    pod: PodView,
    identity: PodExecutionIdentityView,
    oom_signal: i32,
)
    ensures
        delivery_from(pod, identity, oom_signal) matches Ok(Some(delivery)) ==> {
            &&& delivery.exit_code == 0 ==> delivery.state == wire_number(JobState::Completed)
            &&& delivery.exit_code != 0 ==> delivery.state == wire_number(JobState::Failed)
            &&& delivery.exit_code == 0 ==> {
                ||| pod.status->0.phase == Some("Succeeded"@)
                ||| pod.status->0.phase == Some("Failed"@) && exists|k: int|
                    0 <= k < containers_of(pod).len() && (termination_of(
                        #[trigger] containers_of(pod)[k],
                    ) matches Some(ended) && (ended.exit_code == 0 || ended.reason == Some(
                        "OOMKilled"@,
                    )))
            }
            &&& delivery.signal != 0 ==> exists|k: int|
                0 <= k < containers_of(pod).len() && (termination_of(
                    #[trigger] containers_of(pod)[k],
                ) matches Some(ended) && ended.reason == Some("OOMKilled"@))
        },
{
    lemma_phases_differ();
    reveal_strlit("OOMKilled");
    let statuses = containers_of(pod);
    lemma_failure_comes_from_a_container(statuses);
    if let Some(failure) = first_failure(statuses) {
        let k = choose|k: int|
            0 <= k < statuses.len() && container_failure(#[trigger] statuses[k]) == Some(failure);
        assert(container_failure(containers_of(pod)[k]) == Some(failure));
        if failure.oom || failure.exit_code == 0 {
            assert(termination_of(containers_of(pod)[k]) is Some);
        }
    }
}

proof fn lemma_failure_comes_from_a_container(statuses: Seq<ContainerStatusView>)
    ensures
        first_failure(statuses) matches Some(failure) ==> exists|k: int|
            0 <= k < statuses.len() && container_failure(#[trigger] statuses[k]) == Some(failure),
    decreases statuses.len(),
{
    if statuses.len() > 0 && container_failure(statuses[0]) is None {
        let rest = statuses.skip(1);
        lemma_failure_comes_from_a_container(rest);
        if let Some(failure) = first_failure(rest) {
            let k = choose|k: int|
                0 <= k < rest.len() && container_failure(#[trigger] rest[k]) == Some(failure);
            assert(statuses[k + 1] == rest[k]);
        }
    }
}

/// A pod that succeeded is reported as completed. One that cannot be admitted, or
/// whose first container waits for an image that cannot be pulled, is reported as
/// failed though it never ran. One that runs is not reported.
pub proof fn law_each_phase_has_its_report(
    pod: PodView,
    identity: PodExecutionIdentityView,
    oom_signal: i32,
    status: PodStatusView,
)
    requires
        pod.status == Some(status),
    ensures
        status.phase == Some("Succeeded"@) ==> (delivery_from(pod, identity, oom_signal) matches Ok(
            found,
        ) ==> found matches Some(delivery) && delivery.state == wire_number(JobState::Completed)
            && delivery.exit_code == 0 && delivery.signal == 0),
        status.phase == Some("Pending"@) && (status.reason == Some("UnexpectedAdmissionError"@)
            || containers_of(pod).len() > 0 && (wait_of(containers_of(pod)[0]) == Some(
            "ImagePullBackOff"@,
        ) || wait_of(containers_of(pod)[0]) == Some("ErrImagePull"@))) ==> (delivery_from(pod, identity, oom_signal) matches Ok(found) ==> found matches Some(
            delivery,
        ) && delivery.state == wire_number(JobState::Failed) && delivery.exit_code == 1
            && delivery.signal == 0),
        status.phase == Some("Running"@) && pod.metadata.name is Some && pod.metadata.uid is Some
            ==> delivery_from(pod, identity, oom_signal) == Ok::<
            Option<PodCompletionDeliveryView>,
            Seq<char>,
        >(None),
        status.phase == Some("Pending"@) && status.reason is None && status.container_statuses is None
            && pod.metadata.name is Some && pod.metadata.uid is Some ==> delivery_from(
            pod,
            identity,
            oom_signal,
        ) == Ok::<Option<PodCompletionDeliveryView>, Seq<char>>(None),
{
    lemma_phases_differ();
}

/// The end of a pod that carries its identity and names its node is delivered,
/// under its own name and UID, from the node it ran on, else from the one it was
/// meant for.
pub proof fn law_ended_pod_is_delivered(
    pod: PodView,
    identity: PodExecutionIdentityView,
    oom_signal: i32,
    name: Seq<char>,
    uid: Seq<char>,
    node: Seq<char>,
)
    requires
        carried_identity(pod.metadata) == Ok::<PodExecutionIdentityView, Seq<char>>(identity),
        pod.metadata.name == Some(name),
        pod.metadata.uid == Some(uid),
        pod.status matches Some(status) && (status.phase == Some("Succeeded"@) || status.phase
            == Some("Failed"@)),
        node.len() > 0,
        pod.spec is Some,
        pod.spec->0.node_name == Some(node) || pod.spec->0.node_name is None
            && pod.metadata.labels is Some && pod.metadata.labels->0.contains_key(
            "spur.ai/target-node"@,
        ) && pod.metadata.labels->0["spur.ai/target-node"@] == node,
    ensures
        delivery_from(pod, identity, oom_signal) matches Ok(Some(delivery)) && {
            &&& delivery.pod_name == name
            &&& delivery.pod_uid == uid
            &&& delivery.reporting_node == node
            &&& delivery.job_id == identity.key.job_id
            &&& delivery.submission_generation == identity.key.submission_generation
            &&& delivery.run_attempt == identity.key.run_attempt
            &&& delivery.submission_token == identity.submission_token
            &&& delivery.worker_incarnation == identity.worker_incarnation
            &&& delivery.pod_dispatch_token == identity.pod_dispatch_token
            &&& !delivery.delivered
        },
{
    lemma_phases_differ();
}

/// The report that is sent says what was stored: nothing of the outcome, of the
/// execution or of the node changes on the way.
pub proof fn law_report_says_what_was_stored(
    status: SpurJobStatusView,
    entry: CompletionEntryView,
    checked: Result<(), Seq<char>>,
)
    ensures
        deliverable(status, entry, checked) matches Ok(report) ==> {
            &&& report.state == entry.delivery.state
            &&& report.exit_code == entry.delivery.exit_code
            &&& report.signal == entry.delivery.signal
            &&& report.message == entry.delivery.message
            &&& report.reporting_node == entry.delivery.reporting_node
            &&& report.job_id == entry.delivery.job_id
            &&& report.run_attempt == entry.delivery.run_attempt
            &&& report.submission_generation == entry.delivery.submission_generation
            &&& report.submission_token == entry.delivery.submission_token
            &&& report.worker_incarnation == entry.delivery.worker_incarnation
            &&& !report.drain_node
            &&& status.spur_job_id == Some(entry.delivery.job_id)
            &&& status.submission_generation == Some(entry.delivery.submission_generation)
            &&& status.submission_token == Some(entry.delivery.submission_token)
            &&& entry.delivery.pod_uid == entry.pod_uid
            &&& status.pod_uids.contains_key(entry.delivery.pod_name)
                && status.pod_uids[entry.delivery.pod_name] == entry.pod_uid
            &&& status.pod_dispatch_tokens.contains_key(entry.delivery.pod_name)
                && status.pod_dispatch_tokens[entry.delivery.pod_name]
                == entry.delivery.pod_dispatch_token
            &&& checked is Ok
        },
{
}

/// An acknowledgement marks the delivery that was sent and changes nothing else of
/// it; once marked, it is not pending and is not marked again.
pub proof fn law_acknowledged_once(
    pod_uid: Seq<char>,
    expected: PodCompletionDeliveryView,
    fresh: SpurJobView,
)
    ensures
        acknowledged(pod_uid, expected, fresh) matches Ok(OutboxStepView::Persist(patch)) ==> {
            let stored = filed(
                fresh.status->0.completion_deliveries,
                CompletionEntryView { pod_uid, delivery: patch.delivery },
            );
            let after = SpurJobView {
                status: Some(
                    SpurJobStatusView { completion_deliveries: stored, ..fresh.status->0 },
                ),
                ..fresh
            };
            &&& patch.pod_uid == pod_uid
            &&& Some(patch.resource_version) == fresh.metadata.resource_version
            &&& patch.delivery.delivered
            &&& patch.delivery.exit_code == expected.exit_code
            &&& patch.delivery.state == expected.state
            &&& patch.delivery.signal == expected.signal
            &&& patch.delivery.pod_uid == expected.pod_uid
            &&& patch.delivery.run_attempt == expected.run_attempt
            &&& patch.delivery.message == expected.message
            &&& acknowledged(pod_uid, expected, after) == Ok::<OutboxStepView, ReconcileErrorView>(
                OutboxStepView::Settled,
            )
        },
{
    if let Ok(OutboxStepView::Persist(patch)) = acknowledged(pod_uid, expected, fresh) {
        let current = fresh.status->0.completion(pod_uid)->0;
        assert(payload(current).exit_code == payload(expected).exit_code);
        law_filed_completion_is_found(
            fresh.status->0.completion_deliveries,
            CompletionEntryView { pod_uid, delivery: patch.delivery },
            pod_uid,
        );
    }
}

/// What is stored of a delivery is the delivery, under the UID of its pod and
/// against the version of the job that was read.
pub proof fn law_stored_delivery_is_the_delivery(
    owner_uid: Seq<char>,
    pod: PodView,
    identity: PodExecutionIdentityView,
    delivery: PodCompletionDeliveryView,
    fresh: SpurJobView,
)
    ensures
        queued(owner_uid, pod, identity, delivery, fresh) matches Ok(OutboxStepView::Persist(patch))
            ==> {
            &&& patch.delivery == delivery
            &&& patch.pod_uid == delivery.pod_uid
            &&& fresh.metadata.resource_version == Some(patch.resource_version)
            &&& fresh.metadata.uid == Some(owner_uid)
            &&& fresh.status matches Some(status) && status.spur_job_id == Some(identity.key.job_id)
                && status.submission_generation == Some(identity.key.submission_generation)
                && status.submission_token == Some(identity.submission_token)
                && status.pod_uids.contains_key(delivery.pod_name)
                && status.pod_uids[delivery.pod_name] == delivery.pod_uid
                && status.pod_dispatch_tokens.contains_key(delivery.pod_name)
                && status.pod_dispatch_tokens[delivery.pod_name] == identity.pod_dispatch_token
        },
{
}

/// The owner that a pod's completion is checked against is the first job that
/// controls the pod, in the pod's namespace. A pod that was not recorded, or
/// that lacks a name, a UID or a token, has none.
pub proof fn law_owner_is_the_first_controlling_job(
    pod: PodView,
    identity: PodExecutionIdentityView,
    k: int,
)
    requires
        pod.metadata.owner_references is Some,
        0 <= k < (pod.metadata.owner_references->0).len(),
        ({
            let owner = (pod.metadata.owner_references->0)[k];
            &&& owner.controller == Some(true)
            &&& owner.api_version == "spur.amd.com/v1alpha1"@
            &&& owner.kind == "SpurJob"@
        }),
        forall|j: int|
            0 <= j < k ==> (#[trigger] (pod.metadata.owner_references->0)[j]).controller != Some(
                true,
            ) || (pod.metadata.owner_references->0)[j].api_version != "spur.amd.com/v1alpha1"@
                || (pod.metadata.owner_references->0)[j].kind != "SpurJob"@,
    ensures
        owner_to_verify(pod, identity) is Some <==> identity.submission_token.len() > 0
            && identity.pod_dispatch_token.len() > 0 && pod.metadata.annotations is Some && (
        pod.metadata.annotations->0).contains_key(PROVENANCE_RECORDED_ANNOTATION@) && (
        pod.metadata.annotations->0)[PROVENANCE_RECORDED_ANNOTATION@] == "true"@
            && pod.metadata.name is Some && pod.metadata.uid is Some
            && pod.metadata.namespace is Some,
        owner_to_verify(pod, identity) matches Some(key) ==> {
            let owner = (pod.metadata.owner_references->0)[k];
            &&& key.uid == owner.uid
            &&& key.name == owner.name
            &&& pod.metadata.namespace == Some(key.namespace)
        },
{
    lemma_first_owner(pod.metadata.owner_references->0, k);
}

proof fn lemma_first_owner(owners: Seq<OwnerReferenceView>, k: int)
    requires
        0 <= k < owners.len(),
        refers_to_job(owners[k]),
        forall|j: int| 0 <= j < k ==> !refers_to_job(#[trigger] owners[j]),
    ensures
        owning_job(owners) == Some(owners[k]),
    decreases owners.len(),
{
    if k > 0 {
        assert(!refers_to_job(owners[0]));
        let rest = owners.skip(1);
        assert(rest[k - 1] == owners[k]);
        assert forall|j: int| 0 <= j < k - 1 implies !refers_to_job(#[trigger] rest[j]) by {
            assert(rest[j] == owners[j + 1]);
        }
        lemma_first_owner(rest, k - 1);
    }
}

/// A pod without a controlling job has no owner to check against.
pub proof fn law_unowned_pods_are_not_reported(pod: PodView, identity: PodExecutionIdentityView)
    requires
        pod.metadata.owner_references matches Some(owners) ==> forall|j: int|
            0 <= j < owners.len() ==> (#[trigger] owners[j]).controller != Some(true)
                || owners[j].kind != "SpurJob"@,
    ensures
        owner_to_verify(pod, identity) is None,
{
    if pod.metadata.owner_references is Some {
        lemma_no_owner(pod.metadata.owner_references->0);
    }
}

proof fn lemma_no_owner(owners: Seq<OwnerReferenceView>)
    requires
        forall|j: int| 0 <= j < owners.len() ==> !refers_to_job(#[trigger] owners[j]),
    ensures
        owning_job(owners) is None,
    decreases owners.len(),
{
    if owners.len() > 0 {
        assert(!refers_to_job(owners[0]));
        let rest = owners.skip(1);
        assert forall|j: int| 0 <= j < rest.len() implies !refers_to_job(#[trigger] rest[j]) by {
            assert(rest[j] == owners[j + 1]);
        }
        lemma_no_owner(rest);
    }
}

/// A job owns a completion exactly where it is the pod's controlling job and has
/// the pod's UID, both its tokens and its submission on record.
pub proof fn law_owner_has_the_pod_on_record(
    pod: PodView,
    identity: PodExecutionIdentityView,
    job: SpurJobView,
)
    ensures
        owner_verified(pod, identity, job) <==> (owner_to_verify(pod, identity) matches Some(key)
            && job.metadata.uid == Some(key.uid) && (job.status matches Some(status)
            && status.spur_job_id == Some(identity.key.job_id) && status.submission_generation
            == Some(identity.key.submission_generation) && status.submission_token == Some(
            identity.submission_token,
        ) && status.pod_uids.contains_key(pod.metadata.name->0)
            && status.pod_uids[pod.metadata.name->0] == pod.metadata.uid->0
            && status.pod_dispatch_tokens.contains_key(pod.metadata.name->0)
            && status.pod_dispatch_tokens[pod.metadata.name->0] == identity.pod_dispatch_token)),
{
}

/// A report names the node that the pod ran on, else the one it was meant for,
/// and says of the execution what the pod carries.
pub proof fn law_report_is_of_the_pods_execution(
    pod: PodView,
    identity: PodExecutionIdentityView,
    state: i32,
    exit_code: i32,
    signal: i32,
    message: Seq<char>,
)
    ensures
        report_of(pod, identity, state, exit_code, signal, message) matches Ok(report) ==> {
            &&& carried_identity(pod.metadata) == Ok::<PodExecutionIdentityView, Seq<char>>(
                identity,
            )
            &&& report.job_id == identity.key.job_id
            &&& report.run_attempt == identity.key.run_attempt
            &&& report.submission_generation == identity.key.submission_generation
            &&& report.submission_token == identity.submission_token
            &&& report.worker_incarnation == identity.worker_incarnation
            &&& report.state == state
            &&& report.exit_code == exit_code
            &&& report.signal == signal
            &&& report.message == message
            &&& !report.drain_node
            &&& Some(report.reporting_node) == reporting_node(pod)
            &&& report.reporting_node.len() > 0
        },
        carried_identity(pod.metadata) == Ok::<PodExecutionIdentityView, Seq<char>>(identity)
            && reporting_node(pod) is Some ==> report_of(
            pod,
            identity,
            state,
            exit_code,
            signal,
            message,
        ) is Ok,
        pod.spec is Some && (pod.spec->0).node_name is Some && ((pod.spec->0).node_name->0).len() > 0
            ==> reporting_node(pod) == (pod.spec->0).node_name,
        (pod.spec is None || (pod.spec->0).node_name is None) && pod.metadata.labels is Some && (
        pod.metadata.labels->0).contains_key(TARGET_NODE_LABEL@) && (
        pod.metadata.labels->0)[TARGET_NODE_LABEL@].len() > 0 ==> reporting_node(pod) == Some(
            (pod.metadata.labels->0)[TARGET_NODE_LABEL@],
        ),
{
}

/// A failed pod's failure is that of the first container that ended: its exit
/// code, and whether it ran out of memory. One in which none ended failed with
/// code one.
pub proof fn law_failure_is_the_first_containers(
    pod: PodView,
    k: int,
    ended: ContainerTerminationView,
)
    requires
        first_ended(pod, "Failed"@, k, ended),
    ensures
        failure_of(pod).exit_code == ended.exit_code,
        failure_of(pod).oom <==> ended.reason == Some("OOMKilled"@),
        failure_of(pod).state == wire_number(JobState::Failed),
{
    reveal_strlit("OOMKilled");
    assert("OOMKilled"@.len() == 9);
    lemma_first_ended_fails(containers_of(pod), k, ended);
}

proof fn lemma_first_ended_fails(
    statuses: Seq<ContainerStatusView>,
    k: int,
    ended: ContainerTerminationView,
)
    requires
        0 <= k < statuses.len(),
        termination_of(statuses[k]) == Some(ended),
        forall|j: int| 0 <= j < k ==> is_silent(#[trigger] statuses[j]),
    ensures
        first_failure(statuses) == container_failure(statuses[k]),
        container_failure(statuses[k]) is Some,
    decreases statuses.len(),
{
    if k > 0 {
        assert(is_silent(statuses[0]));
        reveal_strlit("ImagePullBackOff");
        reveal_strlit("ErrImagePull");
        assert("ImagePullBackOff"@.len() == 16);
        assert("ErrImagePull"@.len() == 12);
        assert(container_failure(statuses[0]) is None);
        let rest = statuses.skip(1);
        assert(rest[k - 1] == statuses[k]);
        assert forall|j: int| 0 <= j < k - 1 implies is_silent(#[trigger] rest[j]) by {
            assert(rest[j] == statuses[j + 1]);
        }
        lemma_first_ended_fails(rest, k - 1, ended);
    }
}

/// A failure without a container that says why has exit code one and is no
/// memory kill.
pub proof fn law_unexplained_failure_has_code_one(pod: PodView)
    requires
        containers_of(pod).len() == 0,
    ensures
        failure_of(pod).exit_code == 1,
        failure_of(pod).state == wire_number(JobState::Failed),
        !failure_of(pod).oom,
{
    if pod.status is Some && (pod.status->0).container_statuses is Some {
        assert((pod.status->0).container_statuses->0 =~= Seq::empty());
    }
}

/// A delivery is reported exactly where it names its execution in full, its
/// state is one of the protocol's, its identity was found in order, and its job
/// has it on record.
pub proof fn law_complete_deliveries_are_reported(
    status: SpurJobStatusView,
    entry: CompletionEntryView,
    checked: Result<(), Seq<char>>,
)
    ensures
        deliverable(status, entry, checked) is Ok <==> {
            let delivery = entry.delivery;
            &&& delivery.pod_uid == entry.pod_uid
            &&& delivery.pod_uid.len() > 0
            &&& delivery.submission_generation.len() > 0
            &&& delivery.submission_token.len() > 0
            &&& delivery.worker_incarnation.len() > 0
            &&& delivery.pod_dispatch_token.len() > 0
            &&& delivery.reporting_node.len() > 0
            &&& delivery.run_attempt > 0
            &&& 0 <= delivery.state <= 11
            &&& checked is Ok
            &&& status.spur_job_id == Some(delivery.job_id)
            &&& status.submission_generation == Some(delivery.submission_generation)
            &&& status.submission_token == Some(delivery.submission_token)
            &&& status.pod_uids.contains_key(delivery.pod_name)
            &&& status.pod_uids[delivery.pod_name] == entry.pod_uid
            &&& status.pod_dispatch_tokens.contains_key(delivery.pod_name)
            &&& status.pod_dispatch_tokens[delivery.pod_name] == delivery.pod_dispatch_token
        },
{
    law_numbers_are_those_of_the_protocol(entry.delivery.state);
}

/// A refused report needs no delivery any more exactly where the controller
/// shows the same submission, past the attempt: a later attempt, or, where it
/// does not find the attempt, one that is over.
pub proof fn law_refused_report_is_moot_when_overtaken(
    info: JobInfoView,
    delivery: PodCompletionDeliveryView,
    report_code: Code,
)
    ensures
        ({
            let same = info.job_id == delivery.job_id && info.submission_generation
                == delivery.submission_generation && info.submission_token
                == delivery.submission_token;
            let over = state_of_number(info.state) is Some && state_is_final(
                state_of_number(info.state)->0,
            );
            &&& report_code is FailedPrecondition ==> (delivery_moot(info, delivery, report_code)
                <==> same && info.run_attempt > delivery.run_attempt)
            &&& report_code is NotFound ==> (delivery_moot(info, delivery, report_code) <==> same
                && info.run_attempt >= delivery.run_attempt && over)
            &&& !(report_code is FailedPrecondition) && !(report_code is NotFound)
                ==> !delivery_moot(info, delivery, report_code)
        }),
{
}

/// A completion is queued in the job with the UID it was read for, as it was
/// read, where the job controls the pod and has it on record; it is found where
/// the same one is there, and refused where another is.
pub proof fn law_recorded_pods_completion_is_queued(
    owner_uid: Seq<char>,
    pod: PodView,
    identity: PodExecutionIdentityView,
    delivery: PodCompletionDeliveryView,
    fresh: SpurJobView,
)
    requires
        fresh.metadata.uid == Some(owner_uid),
        fresh.metadata.resource_version is Some,
        fresh.status is Some,
        controlled_by(pod.metadata, owner_uid),
        identity.submission_token.len() > 0 && identity.pod_dispatch_token.len() > 0,
        (fresh.status->0).spur_job_id == Some(identity.key.job_id),
        (fresh.status->0).submission_generation == Some(identity.key.submission_generation),
        (fresh.status->0).submission_token == Some(identity.submission_token),
        (fresh.status->0).pod_uids.contains_key(delivery.pod_name),
        (fresh.status->0).pod_uids[delivery.pod_name] == delivery.pod_uid,
        (fresh.status->0).pod_dispatch_tokens.contains_key(delivery.pod_name),
        (fresh.status->0).pod_dispatch_tokens[delivery.pod_name] == identity.pod_dispatch_token,
    ensures
        ({
            let found = (fresh.status->0).completion(delivery.pod_uid);
            let step = queued(owner_uid, pod, identity, delivery, fresh);
            &&& found is None ==> step is Ok && step->Ok_0 is Persist
            &&& found matches Some(existing) ==> (step is Ok <==> existing.exit_code
                == delivery.exit_code && existing.state == delivery.state && existing.signal
                == delivery.signal && existing.message == delivery.message && existing.pod_name
                == delivery.pod_name && existing.pod_uid == delivery.pod_uid && existing.job_id
                == delivery.job_id && existing.reporting_node == delivery.reporting_node
                && existing.run_attempt == delivery.run_attempt && existing.submission_generation
                == delivery.submission_generation && existing.submission_token
                == delivery.submission_token && existing.worker_incarnation
                == delivery.worker_incarnation && existing.pod_dispatch_token
                == delivery.pod_dispatch_token)
            &&& found is Some && step is Ok ==> step->Ok_0 is Settled
        }),
{
}

/// A pod's completion is looked for again where the job controls the pod, has it
/// on record, and has no completion of it yet.
pub proof fn law_missed_completions_are_found(
    owner_uid: Seq<char>,
    status: SpurJobStatusView,
    pod: PodView,
    oom_signal: i32,
)
    ensures
        ({
            let meta = pod.metadata;
            let carried = carried_identity(meta);
            let identity = carried->Ok_0;
            let missed = controlled_by(meta, owner_uid) && carried is Ok && meta.name is Some
                && meta.uid is Some && meta.annotations is Some && (
            meta.annotations->0).contains_key(PROVENANCE_RECORDED_ANNOTATION@) && (
            meta.annotations->0)[PROVENANCE_RECORDED_ANNOTATION@] == "true"@
                && identity.submission_token.len() > 0 && identity.pod_dispatch_token.len() > 0
                && status.spur_job_id == Some(identity.key.job_id) && status.submission_generation
                == Some(identity.key.submission_generation) && status.submission_token == Some(
                identity.submission_token,
            ) && status.pod_uids.contains_key(meta.name->0) && status.pod_uids[meta.name->0]
                == meta.uid->0 && status.pod_dispatch_tokens.contains_key(meta.name->0)
                && status.pod_dispatch_tokens[meta.name->0] == identity.pod_dispatch_token
                && status.completion(meta.uid->0) is None;
            &&& missed ==> rescanned(owner_uid, status, pod, oom_signal) == delivery_from(
                pod,
                identity,
                oom_signal,
            )
            &&& !missed ==> rescanned(owner_uid, status, pod, oom_signal) == Ok::<
                Option<PodCompletionDeliveryView>,
                Seq<char>,
            >(None)
        }),
{
}

/// The pods of a job are gone through again by the job's own number, once it has
/// a generation and a token; the outbox is the job's own.
pub proof fn law_rescan_is_of_the_job(owner: SpurJobView)
    ensures
        rescan_of(owner) matches Ok(Some(job_id)) ==> owner.status is Some && (
        owner.status->0).spur_job_id == Some(job_id) && owner.metadata.namespace is Some
            && owner.metadata.uid is Some,
        ({
            let status = owner.status->0;
            let submitted = owner.status is Some && status.spur_job_id is Some
                && status.submission_generation is Some && (status.submission_generation->0).len()
                > 0 && status.submission_token is Some && (status.submission_token->0).len() > 0;
            &&& submitted && owner.metadata.namespace is Some && owner.metadata.uid is Some
                ==> rescan_of(owner) == Ok::<Option<u32>, ReconcileErrorView>(status.spur_job_id)
            &&& owner.status is Some && !submitted ==> rescan_of(owner) == Ok::<
                Option<u32>,
                ReconcileErrorView,
            >(None)
            &&& owner.status is None ==> rescan_of(owner) is Err
        }),
        outbox_owner(owner) is Ok <==> owner.metadata.namespace is Some && owner.metadata.name is Some
            && owner.metadata.uid is Some,
        outbox_owner(owner) matches Ok(key) ==> owner.metadata.namespace == Some(key.namespace)
            && owner.metadata.name == Some(key.name) && owner.metadata.uid == Some(key.uid),
{
}

} // verus!
