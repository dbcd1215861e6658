use spur::cleanup::{
    backfill_controller_identity, delete_owned_submission_resources, deleting_job,
    exact_pod_deletions, exact_service_deletions, exact_submission_for_cleanup, fence_by_identity,
    fence_by_token, fence_request, handle_deletion, identity_updated, removal_is_moot,
    removal_selector, removal_timed_out, uid_delete_params, BackfillStep, ControllerCleanupFence,
    FenceRequest, NamedUid, Submission, UpdateReply,
};
use spur::crd::{SpurJob, SpurJobStatus};
use spur::execution_identity::PodExecutionIdentity;
use spur::k8s::{ObjectMeta, OwnerReference, Pod, Service};
use spur::provenance::NextAttempt;
use spur::reconcile::{
    ensure_job_identity_labels, has_job_identity_labels, KubeError, LabelStep, ReconcileError,
};
use spur::status::{Code, Status};
use spur::strmap::StrMap;
use spur::wire::{CancelByTokenResponse, JobInfo};

fn map(entries: &[(&str, &str)]) -> StrMap {
    let mut out = StrMap::new();
    for (key, value) in entries {
        out.insert(key.to_string(), value.to_string());
    }
    out
}

fn test_owner(uid: &str) -> OwnerReference {
    OwnerReference {
        api_version: "spur.amd.com/v1alpha1".into(),
        kind: "SpurJob".into(),
        name: "owner".into(),
        uid: uid.into(),
        controller: Some(true),
        block_owner_deletion: Some(true),
    }
}

fn named(found: &Vec<NamedUid>) -> Vec<(&str, &str)> {
    found.iter().map(|n| (n.name.as_str(), n.uid.as_str())).collect()
}

fn deletion_test_pod(identity: &PodExecutionIdentity, name: &str, uid: &str) -> Pod {
    Pod {
        metadata: ObjectMeta {
            name: Some(name.into()),
            uid: Some(uid.into()),
            labels: Some(identity.execution_labels()),
            annotations: Some(identity.annotations()),
            owner_references: Some(vec![test_owner("owner-uid")]),
            ..Default::default()
        },
        ..Default::default()
    }
}

fn deletion_test_service(identity: &PodExecutionIdentity, name: &str, uid: &str) -> Service {
    Service {
        metadata: ObjectMeta {
            name: Some(name.into()),
            uid: Some(uid.into()),
            labels: Some(identity.execution_labels()),
            annotations: Some(identity.service_annotations("")),
            owner_references: Some(vec![test_owner("owner-uid")]),
            ..Default::default()
        },
        ..Default::default()
    }
}

#[test]
fn exact_cleanup_uid_preconditions_then_relist_spares_replacements() {
    let old = PodExecutionIdentity::from_request(77, "generation-old", 1, "worker-old")
        .expect("old identity");
    let replacement = PodExecutionIdentity::from_request(77, "generation-new", 1, "worker-new")
        .expect("replacement identity");
    let exact = Submission {
        job_id: 77,
        generation: "generation-old".into(),
    };
    let recorded = map(&[("shared-name", "pod-uid-old")]);
    let recorded_services = map(&[("shared-name", "service-uid-old")]);

    // First list: both exact old-generation objects must be deleted with
    // immutable UID preconditions, not name-only deletion.
    let pod_deletions = exact_pod_deletions(
        &vec![deletion_test_pod(&old, "shared-name", "pod-uid-old")],
        "owner-uid",
        &recorded,
        &StrMap::new(),
        &None,
        &Some(exact.clone()),
    );
    let service_deletions = exact_service_deletions(
        &vec![deletion_test_service(
            &old,
            "shared-name",
            "service-uid-old",
        )],
        &exact,
        "owner-uid",
        &recorded_services,
        &StrMap::new(),
        &None,
    );
    assert_eq!(named(&pod_deletions), vec![("shared-name", "pod-uid-old")]);
    assert_eq!(named(&service_deletions), vec![("shared-name", "service-uid-old")]);
    let pod_params = uid_delete_params(pod_deletions[0].uid.clone(), true);
    let service_params = uid_delete_params(service_deletions[0].uid.clone(), false);
    assert_eq!(pod_params.grace_period_seconds, Some(0));
    assert_eq!(service_params.grace_period_seconds, None);
    assert_eq!(
        pod_params.preconditions.unwrap().uid.as_deref(),
        Some("pod-uid-old")
    );
    assert_eq!(
        service_params.preconditions.unwrap().uid.as_deref(),
        Some("service-uid-old")
    );

    // Re-list after a 404/409 or accepted delete: same-name replacement
    // objects are not exact matches, so the cleanup loop can ACK without
    // deleting either replacement.
    assert!(exact_pod_deletions(
        &vec![deletion_test_pod(
            &replacement,
            "shared-name",
            "pod-uid-new"
        )],
        "owner-uid",
        &recorded,
        &StrMap::new(),
        &None,
        &Some(exact.clone()),
    )
    .is_empty());
    assert!(exact_service_deletions(
        &vec![deletion_test_service(
            &replacement,
            "shared-name",
            "service-uid-new"
        )],
        &exact,
        "owner-uid",
        &recorded_services,
        &StrMap::new(),
        &None,
    )
    .is_empty());
}

#[test]
fn legacy_cleanup_requires_recorded_uid_and_owner() {
    let identity = PodExecutionIdentity::from_request(77, "generation-old", 1, "worker-old")
        .expect("identity");
    let recorded = map(&[("owned", "recorded-uid")]);
    let mut wrong_owner = deletion_test_pod(&identity, "owned", "recorded-uid");
    wrong_owner.metadata.owner_references = Some(vec![test_owner("other-owner")]);
    let deletions = exact_pod_deletions(
        &vec![
            deletion_test_pod(&identity, "owned", "recorded-uid"),
            deletion_test_pod(&identity, "unrecorded", "unrecorded-uid"),
            wrong_owner,
        ],
        "owner-uid",
        &recorded,
        &StrMap::new(),
        &None,
        &None,
    );
    assert_eq!(named(&deletions), vec![("owned", "recorded-uid")]);

    let exact = Submission {
        job_id: 77,
        generation: "generation-old".into(),
    };
    let service = deletion_test_service(&identity, "legacy-service", "service-uid");
    assert!(exact_service_deletions(
        &vec![service],
        &exact,
        "owner-uid",
        &StrMap::new(),
        &StrMap::new(),
        &None,
    )
    .is_empty());
}

#[test]
fn cleanup_pending_uses_error_path_that_keeps_the_finalizer() {
    let status = SpurJobStatus {
        state: "Submitting".into(),
        submission_token: Some("durable-token-a".into()),
        ..Default::default()
    };
    assert!(exact_submission_for_cleanup(&status).is_none());
    assert!(matches!(
        ReconcileError::CleanupPending,
        ReconcileError::CleanupPending
    ));
}

#[test]
fn cancel_recovery_backfills_submit_crash_identity_before_cleanup_waits() {
    let mut stored = SpurJob {
        metadata: ObjectMeta {
            name: Some("recovering".into()),
            namespace: Some("training".into()),
            uid: Some("owner-uid".into()),
            resource_version: Some("1".into()),
            ..Default::default()
        },
        status: Some(SpurJobStatus {
            state: "Submitting".into(),
            submission_token: Some("durable-token".into()),
            ..Default::default()
        }),
        ..Default::default()
    };
    let exact = Submission {
        job_id: 41,
        generation: "generation-a".into(),
    };
    let token = Some("durable-token".to_string());
    match backfill_controller_identity(&stored, &token, &exact).unwrap() {
        BackfillStep::Persist(patch) => {
            assert_eq!(patch.resource_version, "1");
            let status = stored.status.as_mut().unwrap();
            status.spur_job_id = Some(patch.job_id);
            status.submission_generation = Some(patch.submission_generation);
            stored.metadata.resource_version = Some("2".into());
        }
        BackfillStep::EnsureLabels => panic!("the status names no submission yet"),
    }
    match ensure_job_identity_labels(&stored, 41, "generation-a").unwrap() {
        LabelStep::Patch(patch) => {
            assert_eq!(patch.resource_version, "2");
            let mut labels = stored.metadata.labels.take().unwrap_or_default();
            labels.insert_all(&patch.labels);
            stored.metadata.labels = Some(labels);
        }
        LabelStep::Present => panic!("the labels are not set yet"),
    }

    let status = stored.status.as_ref().unwrap();
    assert_eq!(status.spur_job_id, Some(41));
    assert_eq!(
        status.submission_generation.as_deref(),
        Some("generation-a")
    );
    assert!(has_job_identity_labels(&stored, 41, "generation-a"));
    assert_eq!(status.submission_token.as_deref(), Some("durable-token"));
    assert!(matches!(
        backfill_controller_identity(&stored, &token, &exact),
        Ok(BackfillStep::EnsureLabels)
    ));
    assert!(matches!(
        ensure_job_identity_labels(&stored, 41, "generation-a"),
        Ok(LabelStep::Present)
    ));
}

#[test]
fn finalizer_skips_numeric_cancel_without_submission_generation() {
    for submission_generation in [None, Some(String::new())] {
        let status = SpurJobStatus {
            spur_job_id: Some(42),
            submission_generation,
            ..Default::default()
        };
        assert!(exact_submission_for_cleanup(&status).is_none());
    }
}

#[test]
fn finalizer_uses_exact_submission_identity() {
    let status = SpurJobStatus {
        spur_job_id: Some(42),
        submission_generation: Some("generation-42".into()),
        ..Default::default()
    };
    let exact = exact_submission_for_cleanup(&status).unwrap();
    assert_eq!(exact.job_id, 42);
    assert_eq!(exact.generation, "generation-42");
    assert!(exact_submission_for_cleanup(&SpurJobStatus::default()).is_none());
}

#[test]
fn deleting_a_job_needs_its_namespace_and_uid() {
    let mut job = SpurJob::default();
    assert!(matches!(deleting_job(&job), Err(ReconcileError::Other(_))));
    job.metadata.namespace = Some("training".into());
    assert!(matches!(deleting_job(&job), Err(ReconcileError::Other(_))));
    job.metadata.uid = Some("owner-uid".into());
    assert_eq!(
        deleting_job(&job).unwrap(),
        ("training".to_string(), "owner-uid".to_string())
    );
}

fn submitted(token: Option<&str>, generation: Option<&str>) -> SpurJobStatus {
    SpurJobStatus {
        spur_job_id: Some(41),
        submission_generation: generation.map(String::from),
        submission_token: token.map(String::from),
        ..Default::default()
    }
}

fn answer(job_id: u32, generation: &str, cleanup_complete: bool) -> CancelByTokenResponse {
    CancelByTokenResponse {
        job_id,
        submission_generation: generation.into(),
        cleanup_complete,
    }
}

#[test]
fn the_controller_is_asked_by_the_best_identity() {
    match fence_request(&submitted(Some("token"), Some("generation-a"))) {
        FenceRequest::ByToken(token) => assert_eq!(token, "token"),
        other => panic!("unexpected: {other:?}"),
    }
    match fence_request(&submitted(Some(""), Some("generation-a"))) {
        FenceRequest::ByIdentity(exact) => assert_eq!(exact.job_id, 41),
        other => panic!("unexpected: {other:?}"),
    }
    assert!(matches!(
        fence_request(&submitted(None, None)),
        FenceRequest::Nothing
    ));
}

#[test]
fn token_answers_agree_with_the_status() {
    let status = submitted(Some("token"), Some("generation-a"));
    let fence = fence_by_token(&status, answer(41, "generation-a", true)).unwrap();
    assert!(matches!(fence, ControllerCleanupFence::Complete(_)));
    assert_eq!(fence.exact_submission().unwrap().generation, "generation-a");
    assert_eq!(
        handle_deletion(fence).unwrap().unwrap().job_id,
        41,
        "a finished submission is removed"
    );
    let pending = fence_by_token(&status, answer(41, "generation-a", false)).unwrap();
    assert_eq!(
        handle_deletion(pending).unwrap_err(),
        ReconcileError::CleanupPending
    );
    for refused in [
        answer(42, "generation-a", true),
        answer(41, "generation-b", true),
        answer(41, "", true),
        answer(0, "generation-a", true),
        answer(0, "", true),
    ] {
        assert!(fence_by_token(&status, refused).is_err());
    }
    assert!(matches!(
        fence_by_token(&SpurJobStatus::default(), answer(0, "", true)),
        Ok(ControllerCleanupFence::Complete(None))
    ));
}

#[test]
fn jobs_cancelled_by_identity_are_done_when_gone() {
    let exact = || Submission {
        job_id: 41,
        generation: "generation-a".into(),
    };
    let status = |code| Status {
        code,
        message: "answer".into(),
    };
    assert!(matches!(
        fence_by_identity(exact(), Err(status(Code::NotFound))),
        Ok(ControllerCleanupFence::Complete(Some(_)))
    ));
    assert_eq!(
        fence_by_identity(exact(), Err(status(Code::Unavailable))).unwrap_err(),
        ReconcileError::Grpc(status(Code::Unavailable))
    );
    let mut info = JobInfo {
        job_id: 41,
        submission_generation: "generation-a".into(),
        ..Default::default()
    };
    assert!(matches!(
        fence_by_identity(exact(), Ok(info.clone())),
        Ok(ControllerCleanupFence::Pending(Some(_)))
    ));
    info.submission_generation = "generation-b".into();
    assert!(matches!(
        fence_by_identity(exact(), Ok(info)),
        Ok(ControllerCleanupFence::Complete(Some(_)))
    ));
}

#[test]
fn a_round_removes_the_recorded_objects() {
    let identity =
        PodExecutionIdentity::from_request(77, "generation-old", 1, "worker-old").unwrap();
    let mut status = submitted(None, None);
    status.pod_uids = map(&[("pod-a", "pod-uid")]);
    status.service_uids = map(&[("service-a", "service-uid")]);
    let pods = vec![deletion_test_pod(&identity, "pod-a", "pod-uid")];
    let services = vec![deletion_test_service(&identity, "service-a", "service-uid")];
    let exact = Some(Submission {
        job_id: 77,
        generation: "generation-old".into(),
    });
    let round = delete_owned_submission_resources("owner-uid", &status, &exact, &pods, &services);
    assert_eq!(named(&round.pods), vec![("pod-a", "pod-uid")]);
    assert_eq!(named(&round.services), vec![("service-a", "service-uid")]);
    assert!(!round.is_done());
    let legacy = delete_owned_submission_resources("owner-uid", &status, &None, &pods, &services);
    assert_eq!(legacy.pods.len(), 1);
    assert!(legacy.services.is_empty());
    let done = delete_owned_submission_resources("owner-uid", &status, &exact, &vec![], &vec![]);
    assert!(done.is_done());

    assert_eq!(removal_selector(&exact), "spur.amd.com/job-id=77");
    assert_eq!(
        removal_selector(&None),
        "spur.amd.com/managed-by=spur-k8s-operator"
    );
}

fn api_error(code: u16) -> KubeError {
    KubeError::Api {
        code,
        reason: if code == 409 { "Conflict".into() } else { "".into() },
        message: "answer".into(),
    }
}

#[test]
fn removals_of_gone_objects_are_moot() {
    assert!(removal_is_moot(&api_error(404)));
    assert!(removal_is_moot(&api_error(409)));
    assert!(!removal_is_moot(&api_error(500)));
    assert!(!removal_is_moot(&KubeError::Transport("reset".into())));
    match removal_timed_out("owner-uid") {
        ReconcileError::Other(message) => assert!(message.ends_with("owner-uid")),
        other => panic!("unexpected: {other:?}"),
    }
}

#[test]
fn identity_updates_are_tried_again_on_conflict() {
    assert!(matches!(
        identity_updated(0, UpdateReply::Applied),
        Ok(NextAttempt::Done)
    ));
    assert!(matches!(
        identity_updated(0, UpdateReply::Failed(api_error(409))),
        Ok(NextAttempt::Retry(1))
    ));
    assert!(identity_updated(7, UpdateReply::Failed(api_error(409))).is_err());
    assert_eq!(
        identity_updated(0, UpdateReply::Failed(api_error(500))).unwrap_err(),
        ReconcileError::Kube(api_error(500))
    );
}
