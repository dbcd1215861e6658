use spur::crd::{SpurJob, SpurJobStatus};
use spur::execution_identity::PodExecutionIdentity;
use spur::k8s::{ObjectMeta, OwnerReference, Pod, Service};
use spur::naming::{execution_pod_name, execution_service_name};
use spur::provenance::{
    check_created_pod, check_created_service, ensure_pod_dispatch_token,
    ensure_service_dispatch_token, owner_key, pod_token_step, pod_token_updated, pod_uid_updated,
    record_pod_provenance, record_service_provenance, service_token_updated, service_uid_updated,
    MapPatch, NextAttempt, PatchReply, RecordStep, UPDATE_ATTEMPTS,
};
use spur::status::Code;

fn identity() -> PodExecutionIdentity {
    PodExecutionIdentity::from_launch_request(41, "generation-a", 2, "worker-a", "token-a").unwrap()
}

fn owner() -> SpurJob {
    SpurJob {
        metadata: ObjectMeta {
            name: Some("owner".into()),
            namespace: Some("training".into()),
            uid: Some("owner-uid".into()),
            resource_version: Some("5".into()),
            ..Default::default()
        },
        status: Some(SpurJobStatus {
            spur_job_id: Some(41),
            submission_generation: Some("generation-a".into()),
            submission_token: Some("token-a".into()),
            ..Default::default()
        }),
        ..Default::default()
    }
}

fn patch_of(step: RecordStep) -> MapPatch {
    match step {
        RecordStep::Persist(patch) => patch,
        RecordStep::Recorded(value) => panic!("already recorded as {value}"),
    }
}

#[test]
fn tokens_are_recorded_once_and_reused() {
    let identity = identity();
    let name = execution_pod_name(&identity, "worker-a");
    let mut job = owner();
    let patch = patch_of(pod_token_step("owner-uid", &identity, &name, &job, "fresh").unwrap());
    assert_eq!(patch.resource_version, "5");
    assert_eq!(patch.key, name);
    assert_eq!(patch.value, "fresh");
    job.status
        .as_mut()
        .unwrap()
        .pod_dispatch_tokens
        .insert(name.clone(), "fresh".into());
    match pod_token_step("owner-uid", &identity, &name, &job, "another").unwrap() {
        RecordStep::Recorded(token) => assert_eq!(token, "fresh"),
        RecordStep::Persist(_) => panic!("the recorded token is final"),
    }
}

#[test]
fn fresh_tokens_are_random() {
    let identity = identity();
    let name = execution_pod_name(&identity, "worker-a");
    let first = patch_of(ensure_pod_dispatch_token("owner-uid", &identity, &name, &owner()).unwrap());
    let second = patch_of(ensure_pod_dispatch_token("owner-uid", &identity, &name, &owner()).unwrap());
    for token in [&first.value, &second.value] {
        assert_eq!(token.len(), 36);
        assert_eq!(token.as_bytes()[14], b'4');
        assert_eq!(token.matches('-').count(), 4);
    }
    assert_ne!(first.value, second.value);
    let service = execution_service_name(&identity);
    let third = patch_of(
        ensure_service_dispatch_token("owner-uid", &identity, &service, &owner()).unwrap(),
    );
    assert_ne!(first.field, third.field);
}

#[test]
fn replaced_owners_are_refused() {
    let identity = identity();
    let name = execution_pod_name(&identity, "worker-a");
    assert!(pod_token_step("other-uid", &identity, &name, &owner(), "fresh").is_err());
    let mut moved_on = owner();
    moved_on.status.as_mut().unwrap().submission_generation = Some("generation-b".into());
    assert!(pod_token_step("owner-uid", &identity, &name, &moved_on, "fresh").is_err());
}

#[test]
fn created_pods_are_recorded_by_uid() {
    let mut identity = identity();
    identity.pod_dispatch_token = "dispatch-a".into();
    let name = execution_pod_name(&identity, "worker-a");
    let mut job = owner();
    job.status
        .as_mut()
        .unwrap()
        .pod_dispatch_tokens
        .insert(name.clone(), "dispatch-a".into());
    let mut pod = Pod {
        metadata: ObjectMeta {
            name: Some(name.clone()),
            uid: Some("pod-uid".into()),
            labels: Some(identity.execution_labels()),
            annotations: Some(identity.annotations()),
            owner_references: Some(vec![OwnerReference {
                api_version: "spur.amd.com/v1alpha1".into(),
                kind: "SpurJob".into(),
                name: "owner".into(),
                uid: "owner-uid".into(),
                controller: Some(true),
                block_owner_deletion: Some(true),
            }]),
            ..Default::default()
        },
        ..Default::default()
    };
    let parsed = check_created_pod(&job, &pod).unwrap();
    assert_eq!(parsed, identity);
    let patch =
        patch_of(record_pod_provenance("owner-uid", &parsed, &name, "pod-uid", &job).unwrap());
    assert_eq!(patch.value, "pod-uid");
    job.status
        .as_mut()
        .unwrap()
        .pod_uids
        .insert(name.clone(), "pod-uid".into());
    assert!(matches!(
        record_pod_provenance("owner-uid", &parsed, &name, "pod-uid", &job),
        Ok(RecordStep::Recorded(_))
    ));
    assert!(record_pod_provenance("owner-uid", &parsed, &name, "other-uid", &job).is_err());

    pod.metadata.owner_references = None;
    assert!(check_created_pod(&job, &pod).is_err());
}

#[test]
fn updates_end() {
    let mut attempt = 0;
    let mut conflicts = 0;
    loop {
        match pod_token_updated(attempt, PatchReply::Conflict) {
            Ok(NextAttempt::Retry(next)) => attempt = next,
            Ok(NextAttempt::Done) => panic!("a conflict is no success"),
            Err(status) => {
                assert_eq!(status.code, Code::Aborted);
                break;
            }
        }
        conflicts += 1;
        assert!(conflicts <= UPDATE_ATTEMPTS);
    }
    assert!(matches!(
        pod_uid_updated(0, PatchReply::Applied),
        Ok(NextAttempt::Done)
    ));
    assert!(pod_uid_updated(0, PatchReply::Failed("refused".into())).is_err());
}

#[test]
fn owners_need_a_name_a_namespace_and_a_uid() {
    let key = owner_key(&owner()).unwrap();
    assert_eq!((key.namespace.as_str(), key.name.as_str(), key.uid.as_str()), ("training", "owner", "owner-uid"));
    for strip in [0, 1, 2] {
        let mut job = owner();
        match strip {
            0 => job.metadata.namespace = None,
            1 => job.metadata.name = None,
            _ => job.metadata.uid = None,
        }
        assert_eq!(owner_key(&job).unwrap_err().code, Code::FailedPrecondition);
    }
}

#[test]
fn created_services_are_recorded_by_uid() {
    let identity = identity();
    let name = execution_service_name(&identity);
    let mut job = owner();
    job.status
        .as_mut()
        .unwrap()
        .service_dispatch_tokens
        .insert(name.clone(), "dispatch-s".into());
    let mut service = Service {
        metadata: ObjectMeta {
            name: Some(name.clone()),
            uid: Some("service-uid".into()),
            labels: Some(identity.execution_labels()),
            annotations: Some(identity.service_annotations("dispatch-s")),
            owner_references: Some(vec![OwnerReference {
                uid: "owner-uid".into(),
                controller: Some(true),
                ..Default::default()
            }]),
            ..Default::default()
        },
        ..Default::default()
    };
    check_created_service(&job, &identity, &service).unwrap();
    let record = |job: &SpurJob, uid: &str| {
        record_service_provenance(
            "owner-uid",
            &identity,
            &service.metadata.annotations,
            &name,
            uid,
            job,
        )
    };
    assert_eq!(patch_of(record(&job, "service-uid").unwrap()).value, "service-uid");
    job.status
        .as_mut()
        .unwrap()
        .service_uids
        .insert(name.clone(), "service-uid".into());
    assert!(matches!(
        record(&job, "service-uid"),
        Ok(RecordStep::Recorded(_))
    ));
    assert!(record(&job, "other-uid").is_err());
    assert!(matches!(
        service_token_updated(0, PatchReply::Conflict),
        Ok(NextAttempt::Retry(1))
    ));
    assert!(matches!(
        service_uid_updated(0, PatchReply::Applied),
        Ok(NextAttempt::Done)
    ));
    service.metadata.uid = None;
    assert!(check_created_service(&job, &identity, &service).is_err());
}
