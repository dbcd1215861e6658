//! Identity of one execution, and how pods and services carry it.

use vstd::prelude::*;
use crate::k8s::{ObjectMetaView, Pod, PodView, Service, ServiceView};
use crate::plain::Plain;
use crate::status::{outcome_view, refusal, Code, Status, StatusView};
use crate::strmap::StrMap;
use crate::text::{
    decimal, join2, join3, number_error_message, number_error_text, parse_u32, u32_text,
    unsigned_value,
};

verus! {

pub const JOB_ID_LABEL: &'static str = "spur.amd.com/job-id";

pub const SUBMISSION_GENERATION_LABEL: &'static str = "spur.amd.com/submission-generation";

pub const RUN_ATTEMPT_LABEL: &'static str = "spur.amd.com/run-attempt";

pub const SUBMISSION_GENERATION_ANNOTATION: &'static str = "spur.amd.com/submission-generation";

pub const RUN_ATTEMPT_ANNOTATION: &'static str = "spur.amd.com/run-attempt";

pub const WORKER_INCARNATION_ANNOTATION: &'static str = "spur.amd.com/worker-incarnation";

pub const SUBMISSION_TOKEN_ANNOTATION: &'static str = "spur.amd.com/submission-token";

pub const PROVENANCE_RECORDED_ANNOTATION: &'static str = "spur.amd.com/provenance-recorded";

pub const POD_DISPATCH_TOKEN_ANNOTATION: &'static str = "spur.amd.com/pod-dispatch-token";

pub const SERVICE_DISPATCH_TOKEN_ANNOTATION: &'static str = "spur.amd.com/service-dispatch-token";

/// Identity of one submitted job execution, shared by all its workers.
#[derive(Clone, Debug, Default, PartialEq, Eq, Hash)]
pub struct JobExecutionKey {
    pub job_id: u32,
    pub submission_generation: String,
    pub run_attempt: u32,
}

/// What a [`JobExecutionKey`] holds.
#[verifier::ext_equal]
pub struct JobExecutionKeyView {
    pub job_id: u32,
    pub submission_generation: Seq<char>,
    pub run_attempt: u32,
}

impl View for JobExecutionKey {
    type V = JobExecutionKeyView;

    open spec fn view(&self) -> JobExecutionKeyView {
        JobExecutionKeyView {
            job_id: self.job_id.deep_view(),
            submission_generation: self.submission_generation.deep_view(),
            run_attempt: self.run_attempt.deep_view(),
        }
    }
}

impl DeepView for JobExecutionKey {
    type V = JobExecutionKeyView;

    open spec fn deep_view(&self) -> JobExecutionKeyView {
        self@
    }
}

impl Plain for JobExecutionKey {
    fn equals(&self, other: &Self) -> (same: bool) {
        self.job_id.equals(&other.job_id)
            && self.submission_generation.equals(&other.submission_generation)
            && self.run_attempt.equals(&other.run_attempt)
    }

    fn copy_of(&self) -> (out: Self) {
        JobExecutionKey {
            job_id: self.job_id.copy_of(),
            submission_generation: self.submission_generation.copy_of(),
            run_attempt: self.run_attempt.copy_of(),
        }
    }
}

/// Identity of one execution on one registered virtual worker.
#[derive(Clone, Debug, Default, PartialEq, Eq)]
pub struct PodExecutionIdentity {
    pub key: JobExecutionKey,
    pub worker_incarnation: String,
    pub submission_token: String,
    pub pod_dispatch_token: String,
}

/// What a [`PodExecutionIdentity`] holds.
#[verifier::ext_equal]
pub struct PodExecutionIdentityView {
    pub key: JobExecutionKeyView,
    pub worker_incarnation: Seq<char>,
    pub submission_token: Seq<char>,
    pub pod_dispatch_token: Seq<char>,
}

impl View for PodExecutionIdentity {
    type V = PodExecutionIdentityView;

    open spec fn view(&self) -> PodExecutionIdentityView {
        PodExecutionIdentityView {
            key: self.key.deep_view(),
            worker_incarnation: self.worker_incarnation.deep_view(),
            submission_token: self.submission_token.deep_view(),
            pod_dispatch_token: self.pod_dispatch_token.deep_view(),
        }
    }
}

impl DeepView for PodExecutionIdentity {
    type V = PodExecutionIdentityView;

    open spec fn deep_view(&self) -> PodExecutionIdentityView {
        self@
    }
}

impl Plain for PodExecutionIdentity {
    fn equals(&self, other: &Self) -> (same: bool) {
        self.key.equals(&other.key)
            && self.worker_incarnation.equals(&other.worker_incarnation)
            && self.submission_token.equals(&other.submission_token)
            && self.pod_dispatch_token.equals(&other.pod_dispatch_token)
    }

    fn copy_of(&self) -> (out: Self) {
        PodExecutionIdentity {
            key: self.key.copy_of(),
            worker_incarnation: self.worker_incarnation.copy_of(),
            submission_token: self.submission_token.copy_of(),
            pod_dispatch_token: self.pod_dispatch_token.copy_of(),
        }
    }
}

/// The value stored under `key`, if any.
pub open spec fn lookup(map: Map<Seq<char>, Seq<char>>, key: Seq<char>) -> Option<Seq<char>> {
    if map.contains_key(key) {
        Some(map[key])
    } else {
        None
    }
}

/// The value stored under `key` in a map that may be absent.
pub open spec fn lookup_opt(
    map: Option<Map<Seq<char>, Seq<char>>>,
    key: Seq<char>,
) -> Option<Seq<char>> {
    match map {
        Some(m) => lookup(m, key),
        None => None,
    }
}

/// The value stored under `key` in a map that may be absent.
pub fn get_opt<'a>(map: &'a Option<StrMap>, key: &str) -> (found: Option<&'a String>)
    ensures
        match found {
            Some(value) => lookup_opt(map.deep_view(), key@) == Some(value@),
            None => lookup_opt(map.deep_view(), key@) is None,
        },
{
    match map {
        Some(m) => m.get(key),
        None => None,
    }
}

/// A value that is present and not empty.
pub open spec fn nonempty(value: Option<Seq<char>>) -> Option<Seq<char>> {
    match value {
        Some(v) if v.len() > 0 => Some(v),
        _ => None,
    }
}

/// The value, or the empty text.
pub open spec fn or_empty(value: Option<Seq<char>>) -> Seq<char> {
    match value {
        Some(v) => v,
        None => Seq::empty(),
    }
}

/// Whether a text holds no character.
pub fn is_blank(s: &String) -> (blank: bool)
    ensures
        blank == (s@.len() == 0),
        blank == (s@ == Seq::<char>::empty()),
{
    let blank = *s == String::new();
    proof {
        if s@.len() == 0 {
            assert(s@ =~= Seq::<char>::empty());
        }
    }
    blank
}

/// Whether a text holds no character.
pub fn is_blank_str(s: &str) -> (blank: bool)
    ensures
        blank == (s@.len() == 0),
        blank == (s@ == Seq::<char>::empty()),
{
    is_blank(&s.to_owned())
}

/// A text, or the empty text where there is none.
pub fn text_or_empty(value: Option<&String>) -> (out: String)
    ensures
        out@ == or_empty(value.deep_view()),
{
    match value {
        Some(v) => v.clone(),
        None => String::new(),
    }
}

/// The identity that a control request names.
pub open spec fn requested_identity(
    job_id: u32,
    submission_generation: Seq<char>,
    run_attempt: u32,
    worker_incarnation: Seq<char>,
) -> Result<PodExecutionIdentityView, StatusView> {
    if submission_generation.len() == 0 {
        Err(refusal(Code::InvalidArgument, "submission_generation must be nonempty"@))
    } else if run_attempt == 0 {
        Err(
            refusal(
                Code::InvalidArgument,
                "Kubernetes batch execution requires a nonzero run_attempt"@,
            ),
        )
    } else if worker_incarnation.len() == 0 {
        Err(refusal(Code::InvalidArgument, "worker_incarnation must be nonempty"@))
    } else {
        Ok(
            PodExecutionIdentityView {
                key: JobExecutionKeyView { job_id, submission_generation, run_attempt },
                worker_incarnation,
                submission_token: Seq::empty(),
                pod_dispatch_token: Seq::empty(),
            },
        )
    }
}

/// The identity that a launch request names.
pub open spec fn launched_identity(
    job_id: u32,
    submission_generation: Seq<char>,
    run_attempt: u32,
    worker_incarnation: Seq<char>,
    submission_token: Seq<char>,
) -> Result<PodExecutionIdentityView, StatusView> {
    if submission_token.len() == 0 {
        Err(
            refusal(
                Code::InvalidArgument,
                "Kubernetes LaunchJob requires a nonempty submission_token"@,
            ),
        )
    } else {
        match requested_identity(job_id, submission_generation, run_attempt, worker_incarnation) {
            Ok(identity) => Ok(PodExecutionIdentityView { submission_token, ..identity }),
            Err(status) => Err(status),
        }
    }
}

/// The identity that the labels and annotations of a pod carry, or what is
/// wrong with the first of them that is missing or malformed.
pub open spec fn carried_identity(meta: ObjectMetaView) -> Result<
    PodExecutionIdentityView,
    Seq<char>,
> {
    match meta.labels {
        None => Err("Pod has no labels"@),
        Some(labels) => match lookup(labels, JOB_ID_LABEL@) {
            None => Err("Pod is missing "@ + JOB_ID_LABEL@),
            Some(id) => match unsigned_value(id, u32::MAX as nat) {
                Err(e) => Err("Pod has invalid "@ + JOB_ID_LABEL@ + ": "@ + number_error_message(e)),
                Ok(job_id) => match meta.annotations {
                    None => Err("Pod has no execution annotations"@),
                    Some(annotations) => annotated_identity(job_id as u32, annotations),
                },
            },
        },
    }
}

/// The identity that the annotations of a pod of job `job_id` carry.
pub open spec fn annotated_identity(job_id: u32, annotations: Map<Seq<char>, Seq<char>>) -> Result<
    PodExecutionIdentityView,
    Seq<char>,
> {
    match nonempty(lookup(annotations, SUBMISSION_GENERATION_ANNOTATION@)) {
        None => Err("Pod is missing "@ + SUBMISSION_GENERATION_ANNOTATION@),
        Some(submission_generation) => match lookup(annotations, RUN_ATTEMPT_ANNOTATION@) {
            None => Err("Pod is missing "@ + RUN_ATTEMPT_ANNOTATION@),
            Some(attempt) => match unsigned_value(attempt, u32::MAX as nat) {
                Err(e) => Err(
                    "Pod has invalid "@ + RUN_ATTEMPT_ANNOTATION@ + ": "@ + number_error_message(e),
                ),
                Ok(run_attempt) => if run_attempt == 0 {
                    Err("Pod has zero run_attempt"@)
                } else {
                    match nonempty(lookup(annotations, WORKER_INCARNATION_ANNOTATION@)) {
                        None => Err("Pod is missing "@ + WORKER_INCARNATION_ANNOTATION@),
                        Some(worker_incarnation) => Ok(
                            PodExecutionIdentityView {
                                key: JobExecutionKeyView {
                                    job_id,
                                    submission_generation,
                                    run_attempt: run_attempt as u32,
                                },
                                worker_incarnation,
                                submission_token: or_empty(
                                    lookup(annotations, SUBMISSION_TOKEN_ANNOTATION@),
                                ),
                                pod_dispatch_token: or_empty(
                                    lookup(annotations, POD_DISPATCH_TOKEN_ANNOTATION@),
                                ),
                            },
                        ),
                    }
                },
            },
        },
    }
}

/// An outcome whose failure is a message, by its view.
pub open spec fn message_view<T: View>(outcome: Result<T, String>) -> Result<T::V, Seq<char>> {
    match outcome {
        Ok(value) => Ok(value@),
        Err(message) => Err(message@),
    }
}

/// `map` with `value` under `key`, unless `value` is empty.
pub open spec fn with_nonempty(
    map: Map<Seq<char>, Seq<char>>,
    key: Seq<char>,
    value: Seq<char>,
) -> Map<Seq<char>, Seq<char>> {
    if value.len() > 0 {
        map.insert(key, value)
    } else {
        map
    }
}

impl PodExecutionIdentityView {
    /// What every execution identity satisfies that a request was accepted for.
    pub open spec fn wf(self) -> bool {
        &&& self.key.submission_generation.len() > 0
        &&& self.key.run_attempt > 0
        &&& self.worker_incarnation.len() > 0
    }

    /// The annotations that a pod of this execution carries.
    pub open spec fn annotations(self) -> Map<Seq<char>, Seq<char>> {
        let base = Map::<Seq<char>, Seq<char>>::empty().insert(
            SUBMISSION_GENERATION_ANNOTATION@,
            self.key.submission_generation,
        ).insert(RUN_ATTEMPT_ANNOTATION@, decimal(self.key.run_attempt as nat)).insert(
            WORKER_INCARNATION_ANNOTATION@,
            self.worker_incarnation,
        );
        with_nonempty(
            with_nonempty(base, SUBMISSION_TOKEN_ANNOTATION@, self.submission_token),
            POD_DISPATCH_TOKEN_ANNOTATION@,
            self.pod_dispatch_token,
        )
    }

    /// The labels that select the objects of this execution.
    pub open spec fn execution_labels(self) -> Map<Seq<char>, Seq<char>> {
        Map::<Seq<char>, Seq<char>>::empty().insert(
            JOB_ID_LABEL@,
            decimal(self.key.job_id as nat),
        ).insert(SUBMISSION_GENERATION_LABEL@, self.key.submission_generation).insert(
            RUN_ATTEMPT_LABEL@,
            decimal(self.key.run_attempt as nat),
        )
    }

    /// The annotations that the service of this execution carries.
    pub open spec fn service_annotations(self, service_dispatch_token: Seq<char>) -> Map<
        Seq<char>,
        Seq<char>,
    > {
        let base = Map::<Seq<char>, Seq<char>>::empty().insert(
            SUBMISSION_GENERATION_ANNOTATION@,
            self.key.submission_generation,
        ).insert(RUN_ATTEMPT_ANNOTATION@, decimal(self.key.run_attempt as nat));
        with_nonempty(
            with_nonempty(base, SUBMISSION_TOKEN_ANNOTATION@, self.submission_token),
            SERVICE_DISPATCH_TOKEN_ANNOTATION@,
            service_dispatch_token,
        )
    }

    /// Whether a pod carries this identity. A token that this identity does not
    /// have is not compared.
    pub open spec fn matches_pod(self, pod: PodView) -> bool {
        match carried_identity(pod.metadata) {
            Err(_) => false,
            Ok(found) => {
                &&& found.key == self.key
                &&& found.worker_incarnation == self.worker_incarnation
                &&& self.submission_token.len() == 0 || found.submission_token
                    == self.submission_token
                &&& self.pod_dispatch_token.len() == 0 || found.pod_dispatch_token
                    == self.pod_dispatch_token
            },
        }
    }

    /// Whether a service carries this execution's labels, annotations and
    /// submission token.
    pub open spec fn owns_service(self, service: ServiceView) -> bool {
        let labels = service.metadata.labels;
        let annotations = service.metadata.annotations;
        &&& annotations is Some
        &&& lookup_opt(labels, JOB_ID_LABEL@) == Some(decimal(self.key.job_id as nat))
        &&& lookup_opt(labels, SUBMISSION_GENERATION_LABEL@) == Some(self.key.submission_generation)
        &&& lookup_opt(labels, RUN_ATTEMPT_LABEL@) == Some(decimal(self.key.run_attempt as nat))
        &&& self.submission_token.len() > 0
        &&& lookup_opt(annotations, SUBMISSION_TOKEN_ANNOTATION@) == Some(self.submission_token)
        &&& lookup_opt(annotations, SUBMISSION_GENERATION_ANNOTATION@) == Some(
            self.key.submission_generation,
        )
        &&& lookup_opt(annotations, RUN_ATTEMPT_ANNOTATION@) == Some(
            decimal(self.key.run_attempt as nat),
        )
    }
}

/// The label and annotation names are pairwise different.
pub proof fn lemma_names_distinct()
    ensures
        JOB_ID_LABEL@ != SUBMISSION_GENERATION_LABEL@,
        JOB_ID_LABEL@ != RUN_ATTEMPT_LABEL@,
        SUBMISSION_GENERATION_LABEL@ != RUN_ATTEMPT_LABEL@,
        SUBMISSION_GENERATION_ANNOTATION@ != WORKER_INCARNATION_ANNOTATION@,
        SUBMISSION_GENERATION_ANNOTATION@ != SUBMISSION_TOKEN_ANNOTATION@,
        SUBMISSION_GENERATION_ANNOTATION@ != POD_DISPATCH_TOKEN_ANNOTATION@,
        SUBMISSION_GENERATION_ANNOTATION@ != SERVICE_DISPATCH_TOKEN_ANNOTATION@,
        RUN_ATTEMPT_ANNOTATION@ != WORKER_INCARNATION_ANNOTATION@,
        RUN_ATTEMPT_ANNOTATION@ != SUBMISSION_TOKEN_ANNOTATION@,
        RUN_ATTEMPT_ANNOTATION@ != POD_DISPATCH_TOKEN_ANNOTATION@,
        RUN_ATTEMPT_ANNOTATION@ != SERVICE_DISPATCH_TOKEN_ANNOTATION@,
        WORKER_INCARNATION_ANNOTATION@ != SUBMISSION_TOKEN_ANNOTATION@,
        WORKER_INCARNATION_ANNOTATION@ != POD_DISPATCH_TOKEN_ANNOTATION@,
        SUBMISSION_TOKEN_ANNOTATION@ != POD_DISPATCH_TOKEN_ANNOTATION@,
        SUBMISSION_TOKEN_ANNOTATION@ != SERVICE_DISPATCH_TOKEN_ANNOTATION@,
        PROVENANCE_RECORDED_ANNOTATION@ != SUBMISSION_GENERATION_ANNOTATION@,
        PROVENANCE_RECORDED_ANNOTATION@ != RUN_ATTEMPT_ANNOTATION@,
        PROVENANCE_RECORDED_ANNOTATION@ != WORKER_INCARNATION_ANNOTATION@,
        PROVENANCE_RECORDED_ANNOTATION@ != SUBMISSION_TOKEN_ANNOTATION@,
        PROVENANCE_RECORDED_ANNOTATION@ != POD_DISPATCH_TOKEN_ANNOTATION@,
{
    reveal_strlit("spur.amd.com/job-id");
    reveal_strlit("spur.amd.com/submission-generation");
    reveal_strlit("spur.amd.com/run-attempt");
    reveal_strlit("spur.amd.com/worker-incarnation");
    reveal_strlit("spur.amd.com/submission-token");
    reveal_strlit("spur.amd.com/provenance-recorded");
    reveal_strlit("spur.amd.com/pod-dispatch-token");
    reveal_strlit("spur.amd.com/service-dispatch-token");
    assert(JOB_ID_LABEL@.len() == 19);
    assert(SUBMISSION_GENERATION_LABEL@.len() == 34);
    assert(RUN_ATTEMPT_LABEL@.len() == 24);
    assert(WORKER_INCARNATION_ANNOTATION@.len() == 31);
    assert(SUBMISSION_TOKEN_ANNOTATION@.len() == 29);
    assert(PROVENANCE_RECORDED_ANNOTATION@.len() == 32);
    assert(POD_DISPATCH_TOKEN_ANNOTATION@.len() == 31);
    assert(SERVICE_DISPATCH_TOKEN_ANNOTATION@.len() == 35);
    assert(WORKER_INCARNATION_ANNOTATION@[13] == 'w');
    assert(POD_DISPATCH_TOKEN_ANNOTATION@[13] == 'p');
}

/// Any labels that agree with the execution labels on the job id, together with
/// the annotations of an identity, carry exactly that identity.
pub proof fn law_pod_round_trip(identity: PodExecutionIdentityView, meta: ObjectMetaView)
    requires
        identity.wf(),
        meta.labels is Some,
        identity.execution_labels().submap_of(meta.labels->0),
        meta.annotations == Some(identity.annotations()),
    ensures
        carried_identity(meta) == Ok::<PodExecutionIdentityView, Seq<char>>(identity),
{
    lemma_names_distinct();
    crate::text::law_decimal_round_trip(identity.key.job_id as nat, u32::MAX as nat);
    crate::text::law_decimal_round_trip(identity.key.run_attempt as nat, u32::MAX as nat);
    let labels = identity.execution_labels();
    assert(labels.contains_key(JOB_ID_LABEL@));
    assert(labels[JOB_ID_LABEL@] == decimal(identity.key.job_id as nat));
    assert((meta.labels->0)[JOB_ID_LABEL@] == decimal(identity.key.job_id as nat));
    let annotations = identity.annotations();
    assert(lookup(annotations, SUBMISSION_GENERATION_ANNOTATION@) == Some(
        identity.key.submission_generation,
    ));
    assert(lookup(annotations, RUN_ATTEMPT_ANNOTATION@) == Some(
        decimal(identity.key.run_attempt as nat),
    ));
    assert(lookup(annotations, WORKER_INCARNATION_ANNOTATION@) == Some(identity.worker_incarnation));
    assert(or_empty(lookup(annotations, SUBMISSION_TOKEN_ANNOTATION@)) =~= identity.submission_token);
    assert(or_empty(lookup(annotations, POD_DISPATCH_TOKEN_ANNOTATION@))
        =~= identity.pod_dispatch_token);
}

/// A pod that was created for one execution never matches an identity that
/// differs from it in the job, the generation, the attempt or the worker: a
/// reused numeric job id does not reach the old pod.
pub proof fn law_reused_job_id_does_not_match(
    old_identity: PodExecutionIdentityView,
    replacement: PodExecutionIdentityView,
    pod: PodView,
)
    requires
        old_identity.wf(),
        pod.metadata.labels is Some,
        old_identity.execution_labels().submap_of(pod.metadata.labels->0),
        pod.metadata.annotations == Some(old_identity.annotations()),
        replacement.key != old_identity.key || replacement.worker_incarnation
            != old_identity.worker_incarnation,
    ensures
        old_identity.matches_pod(pod),
        !replacement.matches_pod(pod),
{
    law_pod_round_trip(old_identity, pod.metadata);
}

/// A service that carries the labels and annotations of an execution with a
/// submission token belongs to that execution, whatever worker asks.
pub proof fn law_service_owned_by_its_execution(
    identity: PodExecutionIdentityView,
    service_dispatch_token: Seq<char>,
    service: ServiceView,
)
    requires
        identity.submission_token.len() > 0,
        service.metadata.labels is Some,
        identity.execution_labels().submap_of(service.metadata.labels->0),
        service.metadata.annotations == Some(identity.service_annotations(service_dispatch_token)),
    ensures
        identity.owns_service(service),
{
    lemma_names_distinct();
    let labels = identity.execution_labels();
    assert(labels.contains_key(JOB_ID_LABEL@));
    assert(labels.contains_key(SUBMISSION_GENERATION_LABEL@));
    assert(labels.contains_key(RUN_ATTEMPT_LABEL@));
    let found = service.metadata.labels->0;
    assert(found.contains_key(JOB_ID_LABEL@));
    assert(found.contains_key(SUBMISSION_GENERATION_LABEL@));
    assert(found.contains_key(RUN_ATTEMPT_LABEL@));
    assert(found[JOB_ID_LABEL@] == labels[JOB_ID_LABEL@]);
    assert(found[SUBMISSION_GENERATION_LABEL@] == labels[SUBMISSION_GENERATION_LABEL@]);
    assert(found[RUN_ATTEMPT_LABEL@] == labels[RUN_ATTEMPT_LABEL@]);
}

impl PodExecutionIdentity {
    /// The identity that a control request names.
    pub fn from_request(
        job_id: u32,
        submission_generation: &str,
        run_attempt: u32,
        worker_incarnation: &str,
    ) -> (out: Result<Self, Status>)
        ensures
            outcome_view(out) == requested_identity(
                job_id,
                submission_generation@,
                run_attempt,
                worker_incarnation@,
            ),
    {
        if is_blank_str(submission_generation) {
            return Err(Status::new(Code::InvalidArgument, "submission_generation must be nonempty"));
        }
        if run_attempt == 0 {
            return Err(
                Status::new(
                    Code::InvalidArgument,
                    "Kubernetes batch execution requires a nonzero run_attempt",
                ),
            );
        }
        if is_blank_str(worker_incarnation) {
            return Err(Status::new(Code::InvalidArgument, "worker_incarnation must be nonempty"));
        }
        Ok(
            PodExecutionIdentity {
                key: JobExecutionKey {
                    job_id,
                    submission_generation: submission_generation.to_owned(),
                    run_attempt,
                },
                worker_incarnation: worker_incarnation.to_owned(),
                submission_token: String::new(),
                pod_dispatch_token: String::new(),
            },
        )
    }

    /// The identity that a launch request names.
    pub fn from_launch_request(
        job_id: u32,
        submission_generation: &str,
        run_attempt: u32,
        worker_incarnation: &str,
        submission_token: &str,
    ) -> (out: Result<Self, Status>)
        ensures
            outcome_view(out) == launched_identity(
                job_id,
                submission_generation@,
                run_attempt,
                worker_incarnation@,
                submission_token@,
            ),
    {
        if is_blank_str(submission_token) {
            return Err(
                Status::new(
                    Code::InvalidArgument,
                    "Kubernetes LaunchJob requires a nonempty submission_token",
                ),
            );
        }
        match Self::from_request(job_id, submission_generation, run_attempt, worker_incarnation) {
            Err(status) => Err(status),
            Ok(identity) => Ok(
                PodExecutionIdentity {
                    key: identity.key,
                    worker_incarnation: identity.worker_incarnation,
                    submission_token: submission_token.to_owned(),
                    pod_dispatch_token: identity.pod_dispatch_token,
                },
            ),
        }
    }

    /// The identity that a pod carries. Only the label and annotations written
    /// at dispatch are read: the controller's current records may already
    /// describe a replacement under the same numeric id.
    pub fn from_pod(pod: &Pod) -> (out: Result<Self, String>)
        ensures
            message_view(out) == carried_identity(pod@.metadata),
    {
        let labels = match &pod.metadata.labels {
            None => return Err("Pod has no labels".to_owned()),
            Some(labels) => labels,
        };
        let job_id: u32 = match labels.get(JOB_ID_LABEL) {
            None => return Err(join2("Pod is missing ", JOB_ID_LABEL)),
            Some(text) => match parse_u32(text.as_str()) {
                Err(e) => {
                    let head = join3("Pod has invalid ", JOB_ID_LABEL, ": ");
                    return Err(join2(head.as_str(), number_error_text(e)));
                },
                Ok(n) => n,
            },
        };
        let annotations = match &pod.metadata.annotations {
            None => return Err("Pod has no execution annotations".to_owned()),
            Some(annotations) => annotations,
        };
        let submission_generation: String = match annotations.get(
            SUBMISSION_GENERATION_ANNOTATION,
        ) {
            None => return Err(join2("Pod is missing ", SUBMISSION_GENERATION_ANNOTATION)),
            Some(text) => {
                if is_blank(text) {
                    return Err(join2("Pod is missing ", SUBMISSION_GENERATION_ANNOTATION));
                }
                text.clone()
            },
        };
        let run_attempt: u32 = match annotations.get(RUN_ATTEMPT_ANNOTATION) {
            None => return Err(join2("Pod is missing ", RUN_ATTEMPT_ANNOTATION)),
            Some(text) => match parse_u32(text.as_str()) {
                Err(e) => {
                    let head = join3("Pod has invalid ", RUN_ATTEMPT_ANNOTATION, ": ");
                    return Err(join2(head.as_str(), number_error_text(e)));
                },
                Ok(n) => n,
            },
        };
        if run_attempt == 0 {
            return Err("Pod has zero run_attempt".to_owned());
        }
        let worker_incarnation: String = match annotations.get(WORKER_INCARNATION_ANNOTATION) {
            None => return Err(join2("Pod is missing ", WORKER_INCARNATION_ANNOTATION)),
            Some(text) => {
                if is_blank(text) {
                    return Err(join2("Pod is missing ", WORKER_INCARNATION_ANNOTATION));
                }
                text.clone()
            },
        };
        let submission_token: String = text_or_empty(annotations.get(SUBMISSION_TOKEN_ANNOTATION));
        let pod_dispatch_token: String = text_or_empty(
            annotations.get(POD_DISPATCH_TOKEN_ANNOTATION),
        );
        Ok(
            PodExecutionIdentity {
                key: JobExecutionKey { job_id, submission_generation, run_attempt },
                worker_incarnation,
                submission_token,
                pod_dispatch_token,
            },
        )
    }

    /// The annotations that a pod of this execution carries.
    pub fn annotations(&self) -> (out: StrMap)
        ensures
            out@ == self@.annotations(),
    {
        let mut annotations = StrMap::new();
        annotations.insert(
            SUBMISSION_GENERATION_ANNOTATION.to_owned(),
            self.key.submission_generation.clone(),
        );
        annotations.insert(RUN_ATTEMPT_ANNOTATION.to_owned(), u32_text(self.key.run_attempt));
        annotations.insert(
            WORKER_INCARNATION_ANNOTATION.to_owned(),
            self.worker_incarnation.clone(),
        );
        if !is_blank(&self.submission_token) {
            annotations.insert(
                SUBMISSION_TOKEN_ANNOTATION.to_owned(),
                self.submission_token.clone(),
            );
        }
        if !is_blank(&self.pod_dispatch_token) {
            annotations.insert(
                POD_DISPATCH_TOKEN_ANNOTATION.to_owned(),
                self.pod_dispatch_token.clone(),
            );
        }
        annotations
    }

    /// The labels that select the objects of this execution.
    pub fn execution_labels(&self) -> (out: StrMap)
        ensures
            out@ == self@.execution_labels(),
    {
        let mut labels = StrMap::new();
        labels.insert(JOB_ID_LABEL.to_owned(), u32_text(self.key.job_id));
        labels.insert(
            SUBMISSION_GENERATION_LABEL.to_owned(),
            self.key.submission_generation.clone(),
        );
        labels.insert(RUN_ATTEMPT_LABEL.to_owned(), u32_text(self.key.run_attempt));
        labels
    }

    /// Whether a pod carries this identity.
    pub fn matches_pod(&self, pod: &Pod) -> (yes: bool)
        ensures
            yes == self@.matches_pod(pod@),
    {
        match Self::from_pod(pod) {
            Err(_) => false,
            Ok(found) => {
                found.key.equals(&self.key) && found.worker_incarnation == self.worker_incarnation
                    && (is_blank(&self.submission_token) || found.submission_token
                    == self.submission_token) && (is_blank(&self.pod_dispatch_token)
                    || found.pod_dispatch_token == self.pod_dispatch_token)
            },
        }
    }

    /// The annotations that the service of this execution carries.
    pub fn service_annotations(&self, service_dispatch_token: &str) -> (out: StrMap)
        ensures
            out@ == self@.service_annotations(service_dispatch_token@),
    {
        let mut annotations = StrMap::new();
        annotations.insert(
            SUBMISSION_GENERATION_ANNOTATION.to_owned(),
            self.key.submission_generation.clone(),
        );
        annotations.insert(RUN_ATTEMPT_ANNOTATION.to_owned(), u32_text(self.key.run_attempt));
        if !is_blank(&self.submission_token) {
            annotations.insert(
                SUBMISSION_TOKEN_ANNOTATION.to_owned(),
                self.submission_token.clone(),
            );
        }
        if !is_blank_str(service_dispatch_token) {
            annotations.insert(
                SERVICE_DISPATCH_TOKEN_ANNOTATION.to_owned(),
                service_dispatch_token.to_owned(),
            );
        }
        annotations
    }

    /// Whether a service belongs to this execution.
    pub fn owns_service(&self, service: &Service) -> (yes: bool)
        ensures
            yes == self@.owns_service(service@),
    {
        let labels = &service.metadata.labels;
        let annotations = &service.metadata.annotations;
        let job_id = u32_text(self.key.job_id);
        let run_attempt = u32_text(self.key.run_attempt);
        annotations.is_some() && holds(get_opt(labels, JOB_ID_LABEL), &job_id) && holds(
            get_opt(labels, SUBMISSION_GENERATION_LABEL),
            &self.key.submission_generation,
        ) && holds(get_opt(labels, RUN_ATTEMPT_LABEL), &run_attempt) && !is_blank(
            &self.submission_token,
        ) && holds(get_opt(annotations, SUBMISSION_TOKEN_ANNOTATION), &self.submission_token)
            && holds(
            get_opt(annotations, SUBMISSION_GENERATION_ANNOTATION),
            &self.key.submission_generation,
        ) && holds(get_opt(annotations, RUN_ATTEMPT_ANNOTATION), &run_attempt)
    }
}

/// Whether a value is there and reads `expected`.
pub fn holds(found: Option<&String>, expected: &String) -> (yes: bool)
    ensures
        yes == (found.deep_view() == Some(expected@)),
{
    match found {
        Some(value) => *value == *expected,
        None => false,
    }
}

/// What an execution is called in a request is what it is called after: nothing of
/// it may be left out, and nothing of it is changed.
pub proof fn law_requested_identity_is_kept(
    job_id: u32,
    submission_generation: Seq<char>,
    run_attempt: u32,
    worker_incarnation: Seq<char>,
)
    ensures
        requested_identity(job_id, submission_generation, run_attempt, worker_incarnation) is Ok
            <==> submission_generation.len() > 0 && run_attempt > 0 && worker_incarnation.len() > 0,
        requested_identity(job_id, submission_generation, run_attempt, worker_incarnation) matches Ok(
            identity,
        ) ==> {
            &&& identity.wf()
            &&& identity.key.job_id == job_id
            &&& identity.key.submission_generation == submission_generation
            &&& identity.key.run_attempt == run_attempt
            &&& identity.worker_incarnation == worker_incarnation
            &&& identity.submission_token.len() == 0
            &&& identity.pod_dispatch_token.len() == 0
        },
        requested_identity(job_id, submission_generation, run_attempt, worker_incarnation) matches Err(
            status,
        ) ==> status.code is InvalidArgument,
{
}

/// A pod matches an execution only where it carries that very execution, by the same
/// worker, and every token that is asked after.
pub proof fn law_match_is_exact(identity: PodExecutionIdentityView, pod: PodView)
    requires
        identity.matches_pod(pod),
    ensures
        carried_identity(pod.metadata) matches Ok(found) && {
            &&& found.key.job_id == identity.key.job_id
            &&& found.key.submission_generation == identity.key.submission_generation
            &&& found.key.run_attempt == identity.key.run_attempt
            &&& found.worker_incarnation == identity.worker_incarnation
            &&& identity.submission_token.len() > 0 ==> found.submission_token
                == identity.submission_token
            &&& identity.pod_dispatch_token.len() > 0 ==> found.pod_dispatch_token
                == identity.pod_dispatch_token
        },
{
}

/// A pod that was dispatched with other tokens does not match.
pub proof fn law_other_tokens_do_not_match(
    carried: PodExecutionIdentityView,
    asked: PodExecutionIdentityView,
    pod: PodView,
)
    requires
        carried.wf(),
        pod.metadata.labels is Some,
        carried.execution_labels().submap_of(pod.metadata.labels->0),
        pod.metadata.annotations == Some(carried.annotations()),
        asked.submission_token.len() > 0 && asked.submission_token != carried.submission_token
            || asked.pod_dispatch_token.len() > 0 && asked.pod_dispatch_token
            != carried.pod_dispatch_token,
    ensures
        !asked.matches_pod(pod),
{
    law_pod_round_trip(carried, pod.metadata);
}

/// A service is owned by an execution only where it carries its labels and the token
/// of its submission.
pub proof fn law_owned_service_carries_the_submission(
    identity: PodExecutionIdentityView,
    service: ServiceView,
)
    requires
        identity.owns_service(service),
    ensures
        identity.submission_token.len() > 0,
        service.metadata.labels matches Some(labels) && {
            &&& labels.contains_key("spur.amd.com/job-id"@) && labels["spur.amd.com/job-id"@]
                == decimal(identity.key.job_id as nat)
            &&& labels.contains_key("spur.amd.com/submission-generation"@)
                && labels["spur.amd.com/submission-generation"@]
                == identity.key.submission_generation
            &&& labels.contains_key("spur.amd.com/run-attempt"@)
                && labels["spur.amd.com/run-attempt"@] == decimal(identity.key.run_attempt as nat)
        },
        lookup_opt(service.metadata.annotations, SUBMISSION_TOKEN_ANNOTATION@) == Some(
            identity.submission_token,
        ),
{
}

} // verus!
