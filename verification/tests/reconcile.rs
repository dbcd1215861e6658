use spur::crd::SpurJob;
use spur::execution_identity::{JOB_ID_LABEL, SUBMISSION_GENERATION_LABEL};
use spur::k8s::ObjectMeta;
use spur::reconcile::{
    error_policy, has_job_identity_labels, is_transient_kube_error, job_namespace,
    label_patch_timed_out, map_finalizer_err, Action, FinalizerError, KubeError, ReconcileError,
    FINALIZER,
};
use spur::strmap::StrMap;

fn map(entries: &[(&str, &str)]) -> StrMap {
    let mut out = StrMap::new();
    for (key, value) in entries {
        out.insert(key.to_string(), value.to_string());
    }
    out
}

fn make_spurjob(labels: Option<StrMap>, namespace: Option<&str>) -> SpurJob {
    SpurJob {
        metadata: ObjectMeta {
            name: Some("test-job".into()),
            namespace: namespace.map(String::from),
            labels,
            ..Default::default()
        },
        ..Default::default()
    }
}

#[test]
fn test_map_finalizer_err_unnamed_object() {
    let err = map_finalizer_err(FinalizerError::UnnamedObject);
    assert!(
        matches!(&err, ReconcileError::Other(msg) if msg == "unnamed SpurJob"),
        "unexpected: {err:?}"
    );
}

#[test]
fn test_map_finalizer_err_invalid_finalizer_contains_name() {
    let err = map_finalizer_err(FinalizerError::InvalidFinalizer);
    let ReconcileError::Other(msg) = &err else {
        panic!("expected Other, got {err:?}");
    };
    assert!(
        msg.contains(FINALIZER),
        "message should name the finalizer: {msg}"
    );
    assert!(
        msg.contains("not a valid"),
        "message should say it's invalid: {msg}"
    );
}

#[test]
fn test_map_finalizer_err_apply_failed_is_passthrough() {
    let inner = ReconcileError::Other("apply failure".into());
    let err = map_finalizer_err(FinalizerError::ApplyFailed(inner));
    assert!(matches!(&err, ReconcileError::Other(msg) if msg == "apply failure"));
}

#[test]
fn test_map_finalizer_err_cleanup_failed_is_passthrough() {
    let inner = ReconcileError::Other("cleanup failure".into());
    let err = map_finalizer_err(FinalizerError::CleanupFailed(inner));
    assert!(matches!(&err, ReconcileError::Other(msg) if msg == "cleanup failure"));
}
#[test]
fn test_has_job_identity_labels_present() {
    let labels = map(&[
        (JOB_ID_LABEL, "42"),
        (SUBMISSION_GENERATION_LABEL, "generation-42"),
    ]);
    let job = make_spurjob(Some(labels), Some("default"));
    assert!(has_job_identity_labels(&job, 42, "generation-42"));
}

#[test]
fn test_has_job_id_label_absent() {
    let job = make_spurjob(Some(StrMap::new()), Some("default"));
    assert!(!has_job_identity_labels(&job, 42, "generation-42"));
}

#[test]
fn test_has_job_id_label_none_labels() {
    let job = make_spurjob(None, Some("default"));
    assert!(!has_job_identity_labels(&job, 42, "generation-42"));
}

#[test]
fn test_has_job_id_label_other_labels_only() {
    let labels = map(&[
        ("spur.amd.com/managed-by", "spur-k8s-operator"),
        ("app", "training"),
    ]);
    let job = make_spurjob(Some(labels), Some("default"));
    assert!(!has_job_identity_labels(&job, 42, "generation-42"));
}

#[test]
fn test_partial_or_mismatched_identity_labels_are_not_accepted() {
    let labels = map(&[
        ("spur.amd.com/managed-by", "spur-k8s-operator"),
        (JOB_ID_LABEL, "99"),
        (SUBMISSION_GENERATION_LABEL, "generation-old"),
    ]);
    let job = make_spurjob(Some(labels), Some("default"));
    assert!(!has_job_identity_labels(&job, 99, "generation-new"));
}

#[test]
fn test_namespace_missing_produces_error() {
    let job = make_spurjob(None, None);
    let result = job_namespace(&job);
    assert!(
        matches!(&result, Err(ReconcileError::Other(msg)) if msg == "SpurJob has no namespace")
    );
}

#[test]
fn test_namespace_present_is_extracted() {
    let job = make_spurjob(None, Some("ml-team"));
    let result = job_namespace(&job);
    assert_eq!(result.unwrap(), "ml-team");
}

fn api_error(code: u16, reason: &str) -> KubeError {
    KubeError::Api {
        code,
        reason: reason.into(),
        message: "answer".into(),
    }
}

#[test]
fn errors_decide_when_a_job_is_tried_again() {
    assert!(is_transient_kube_error(&KubeError::Transport("reset".into())));
    assert!(is_transient_kube_error(&api_error(409, "Conflict")));
    assert!(is_transient_kube_error(&api_error(429, "")));
    assert!(is_transient_kube_error(&api_error(503, "")));
    assert!(!is_transient_kube_error(&api_error(404, "NotFound")));
    assert!(matches!(
        error_policy(&ReconcileError::CleanupPending),
        Action::RequeueMillis(1000)
    ));
    assert!(matches!(
        error_policy(&ReconcileError::Other("no namespace".into())),
        Action::RequeueMillis(60_000)
    ));
}

#[test]
fn finalizer_patch_errors_pass_through() {
    assert_eq!(
        map_finalizer_err(FinalizerError::AddFinalizer(api_error(500, "Internal"))),
        ReconcileError::Kube(api_error(500, "Internal"))
    );
    assert_eq!(
        map_finalizer_err(FinalizerError::RemoveFinalizer(api_error(404, "NotFound"))),
        ReconcileError::Kube(api_error(404, "NotFound"))
    );
}

#[test]
fn late_label_patches_time_out() {
    match label_patch_timed_out() {
        ReconcileError::Kube(KubeError::Api { code, reason, message }) => {
            assert_eq!(code, 504);
            assert_eq!(reason, "label patch timed out after 3s");
            assert_eq!(message, "TimedOut");
        }
        other => panic!("unexpected: {other:?}"),
    }
}
