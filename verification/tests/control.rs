use spur::control::{
    classify_control_pods, classify_control_services, find_exact_pod, hydrate_control_identity,
    lookup_is_retried, lookup_timed_out, owner_reference, resolve_spur_job,
    status_binds_control_pod, status_binds_control_service,
};
use spur::crd::{SpurJob, SpurJobStatus};
use spur::execution_identity::{
    PodExecutionIdentity, PROVENANCE_RECORDED_ANNOTATION, SUBMISSION_GENERATION_LABEL,
};
use spur::k8s::{ObjectMeta, OwnerReference, Pod, Service};
use spur::naming::{execution_pod_name, execution_service_name};
use spur::status::Code;
use spur::strmap::StrMap;

fn map(entries: &[(&str, &str)]) -> StrMap {
    let mut out = StrMap::new();
    for (key, value) in entries {
        out.insert(key.to_string(), value.to_string());
    }
    out
}

fn test_owner(uid: &str) -> OwnerReference {
    OwnerReference {
        api_version: "spur.amd.com/v1alpha1".into(),
        kind: "SpurJob".into(),
        name: "owner".into(),
        uid: uid.into(),
        controller: Some(true),
        block_owner_deletion: Some(true),
    }
}

#[test]
fn control_pod_requires_owner_recorded_uid_and_dispatch_nonce() {
    let mut found = PodExecutionIdentity::from_launch_request(
        41,
        "generation-a",
        2,
        "worker-a",
        "submission-token-a",
    )
    .expect("launch identity");
    found.pod_dispatch_token = "dispatch-a".into();
    let requested = PodExecutionIdentity::from_request(41, "generation-a", 2, "worker-a")
        .expect("control identity");
    let pod_name = execution_pod_name(&found, "worker-a");
    let mut annotations = found.annotations();
    annotations.insert(PROVENANCE_RECORDED_ANNOTATION.into(), "true".into());
    let pod = Pod {
        metadata: ObjectMeta {
            name: Some(pod_name.clone()),
            uid: Some("pod-uid-a".into()),
            labels: Some(found.execution_labels()),
            annotations: Some(annotations),
            owner_references: Some(vec![test_owner("owner-uid")]),
            ..Default::default()
        },
        ..Default::default()
    };
    let status = SpurJobStatus {
        spur_job_id: Some(41),
        submission_generation: Some("generation-a".into()),
        submission_token: Some("submission-token-a".into()),
        pod_uids: map(&[(pod_name.as_str(), "pod-uid-a")]),
        pod_dispatch_tokens: map(&[(pod_name.as_str(), "dispatch-a")]),
        ..Default::default()
    };

    assert!(status_binds_control_pod(
        &status,
        "owner-uid",
        &requested,
        &pod
    ));
    assert_eq!(
        classify_control_pods(&status, "owner-uid", &requested, vec![pod.clone()], false)
            .expect("exact Pod classification")
            .len(),
        1
    );

    let mut forged_uid = pod.clone();
    forged_uid.metadata.uid = Some("forged-uid".into());
    assert!(!status_binds_control_pod(
        &status,
        "owner-uid",
        &requested,
        &forged_uid
    ));
    assert!(
        classify_control_pods(&status, "owner-uid", &requested, vec![forged_uid], false,)
            .is_err()
    );

    let mut forged_owner = pod.clone();
    forged_owner.metadata.owner_references = Some(vec![test_owner("attacker-uid")]);
    assert!(!status_binds_control_pod(
        &status,
        "owner-uid",
        &requested,
        &forged_owner
    ));

    let mut recovering = status.clone();
    recovering.pod_uids = StrMap::new();
    assert!(classify_control_pods(
        &recovering,
        "owner-uid",
        &requested,
        vec![pod.clone()],
        false,
    )
    .is_err());
    assert_eq!(
        classify_control_pods(
            &recovering,
            "owner-uid",
            &requested,
            vec![pod.clone()],
            true,
        )
        .expect("cleanup may recover a nonce-bound create response loss")
        .len(),
        1
    );

    let foreign_malformed = Pod {
        metadata: ObjectMeta {
            name: Some("foreign".into()),
            labels: Some(found.execution_labels()),
            owner_references: Some(vec![test_owner("attacker-uid")]),
            ..Default::default()
        },
        ..Default::default()
    };
    assert!(classify_control_pods(
        &status,
        "owner-uid",
        &requested,
        vec![foreign_malformed],
        false,
    )
    .expect("foreign malformed identity must be ignored")
    .is_empty());

    let stale_attempt = PodExecutionIdentity::from_request(41, "generation-a", 1, "worker-a")
        .expect("stale control identity");
    assert!(!status_binds_control_pod(
        &status,
        "owner-uid",
        &stale_attempt,
        &pod
    ));
}

#[test]
fn control_service_requires_owner_and_recorded_immutable_uid() {
    let identity = PodExecutionIdentity::from_launch_request(
        41,
        "generation-a",
        2,
        "worker-a",
        "submission-token-a",
    )
    .expect("service identity");
    let name = execution_service_name(&identity);
    let service = Service {
        metadata: ObjectMeta {
            name: Some(name.clone()),
            uid: Some("service-uid-a".into()),
            labels: Some(identity.execution_labels()),
            annotations: Some(identity.service_annotations("service-dispatch-token")),
            owner_references: Some(vec![test_owner("owner-uid")]),
            ..Default::default()
        },
        ..Default::default()
    };
    let status = SpurJobStatus {
        spur_job_id: Some(41),
        submission_generation: Some("generation-a".into()),
        submission_token: Some("submission-token-a".into()),
        service_uids: map(&[(name.as_str(), "service-uid-a")]),
        service_dispatch_tokens: map(&[(name.as_str(), "service-dispatch-token")]),
        ..Default::default()
    };
    assert!(status_binds_control_service(
        &status,
        "owner-uid",
        &identity,
        &service
    ));
    assert_eq!(
        classify_control_services(
            &status,
            "owner-uid",
            &identity,
            vec![service.clone()],
            false,
        )
        .expect("exact Service classification")
        .len(),
        1
    );

    let mut forged = service.clone();
    forged.metadata.uid = Some("forged-service-uid".into());
    assert!(!status_binds_control_service(
        &status,
        "owner-uid",
        &identity,
        &forged
    ));
    assert!(
        classify_control_services(&status, "owner-uid", &identity, vec![forged], false,)
            .is_err()
    );

    let mut recovering = status.clone();
    recovering.service_uids = StrMap::new();
    assert!(classify_control_services(
        &recovering,
        "owner-uid",
        &identity,
        vec![service.clone()],
        false,
    )
    .is_err());
    assert_eq!(
        classify_control_services(
            &recovering,
            "owner-uid",
            &identity,
            vec![service.clone()],
            true,
        )
        .expect("cleanup may recover a nonce-bound Service create response loss")
        .len(),
        1
    );

    let stale_attempt = PodExecutionIdentity::from_launch_request(
        41,
        "generation-a",
        1,
        "worker-a",
        "submission-token-a",
    )
    .expect("stale service identity");
    assert!(!status_binds_control_service(
        &status,
        "owner-uid",
        &stale_attempt,
        &service
    ));
}

fn job(name: &str, status: SpurJobStatus) -> SpurJob {
    SpurJob {
        metadata: ObjectMeta {
            name: Some(name.into()),
            namespace: Some("training".into()),
            uid: Some(format!("{name}-uid")),
            labels: Some(map(&[(SUBMISSION_GENERATION_LABEL, "generation-a")])),
            ..Default::default()
        },
        status: Some(status),
        ..Default::default()
    }
}

fn running() -> SpurJobStatus {
    SpurJobStatus {
        spur_job_id: Some(41),
        submission_generation: Some("generation-a".into()),
        submission_token: Some("token-a".into()),
        ..Default::default()
    }
}

#[test]
fn one_job_owns_an_execution() {
    let identity =
        PodExecutionIdentity::from_launch_request(41, "generation-a", 2, "worker-a", "token-a")
            .unwrap();
    let found = resolve_spur_job(&identity, vec![job("a", running())]).unwrap();
    assert_eq!(found.metadata.name.as_deref(), Some("a"));
    let missing = resolve_spur_job(&identity, vec![]).unwrap_err();
    assert!(lookup_is_retried(&missing));
    let twice = resolve_spur_job(&identity, vec![job("a", running()), job("b", running())]);
    assert!(!lookup_is_retried(&twice.unwrap_err()));
    assert_eq!(
        lookup_timed_out(&identity, 30).code,
        Code::DeadlineExceeded
    );
}

#[test]
fn control_requests_learn_their_token() {
    let requested =
        PodExecutionIdentity::from_request(41, "generation-a", 2, "worker-a").unwrap();
    let hydrated = hydrate_control_identity(&job("a", running()), &requested).unwrap();
    assert_eq!(hydrated.submission_token, "token-a");
    let other = PodExecutionIdentity::from_request(42, "generation-a", 2, "worker-a").unwrap();
    assert!(hydrate_control_identity(&job("a", running()), &other).is_err());
}

#[test]
fn exactly_one_pod_is_found() {
    let identity = PodExecutionIdentity::from_request(41, "generation-a", 2, "worker-a").unwrap();
    assert!(find_exact_pod(&identity, vec![Pod::default()]).is_ok());
    assert!(find_exact_pod(&identity, vec![]).is_err());
    assert!(find_exact_pod(&identity, vec![Pod::default(), Pod::default()]).is_err());
    assert_eq!(owner_reference(&job("a", running())).unwrap().uid, "a-uid");
    assert!(owner_reference(&SpurJob::default()).is_err());
}
