use spur::crd::{SpurJob, SpurJobStatus};
use spur::desired::pod_matches_desired;
use spur::k8s::ObjectMeta;
use spur::launch::{
    desired_pod, desired_service, dispatched_identity, launch_identity, launched, plan_launch,
    settle_pod, settle_service, CreateReply, LaunchStep,
};
use spur::naming::{execution_pod_name, execution_service_name};
use spur::status::Code;
use spur::strmap::StrMap;
use spur::wire::{core_job_spec_to_proto, JobSpec, LaunchJobRequest, WireJobSpec};

fn spec() -> WireJobSpec {
    core_job_spec_to_proto(&JobSpec {
        name: "train".into(),
        user: "alice".into(),
        num_nodes: 2,
        num_tasks: 2,
        cpus_per_task: 4,
        container_image: Some("image:v1".into()),
        ..Default::default()
    })
}

fn request() -> LaunchJobRequest {
    LaunchJobRequest {
        job_id: 41,
        submission_generation: "generation-a".into(),
        run_attempt: 2,
        worker_incarnation: "worker-a".into(),
        submission_token: "token-a".into(),
        target_node: "node-1".into(),
        peer_nodes: vec!["node-1".into(), "node-2".into()],
        task_offset: 0,
        spec: Some(spec()),
        allocated: None,
    }
}

fn owner() -> SpurJob {
    SpurJob {
        metadata: ObjectMeta {
            name: Some("owner".into()),
            namespace: Some("training".into()),
            uid: Some("owner-uid".into()),
            ..Default::default()
        },
        status: Some(SpurJobStatus {
            spur_job_id: Some(41),
            submission_generation: Some("generation-a".into()),
            submission_token: Some("token-a".into()),
            launch_spec_sha256: Some("digest".into()),
            ..Default::default()
        }),
        ..Default::default()
    }
}

#[test]
fn launches_need_an_exact_identity() {
    let identity = launch_identity(&request()).unwrap();
    assert_eq!(identity.key.job_id, 41);
    assert_eq!(identity.submission_token, "token-a");
    let mut anonymous = request();
    anonymous.submission_token = String::new();
    assert_eq!(
        launch_identity(&anonymous).unwrap_err().code,
        Code::InvalidArgument
    );
}

#[test]
fn changed_specs_are_not_launched() {
    let identity = launch_identity(&request()).unwrap();
    let plan = plan_launch(&request(), &identity, &owner(), Ok(()), Ok("digest".into())).unwrap();
    assert_eq!(plan.namespace, "training");
    assert_eq!(plan.pod_name, execution_pod_name(&identity, "node-1"));
    assert_eq!(plan.service_name, Some(execution_service_name(&identity)));
    assert_eq!(plan.owner_reference.uid, "owner-uid");
    for (valid, digest) in [
        (Ok(()), Ok("other".to_string())),
        (Ok(()), Err("unreadable".to_string())),
        (Err("invalid".to_string()), Ok("digest".to_string())),
    ] {
        assert!(plan_launch(&request(), &identity, &owner(), valid, digest).is_err());
    }
}

#[test]
fn created_pods_are_settled_by_their_content() {
    let request = request();
    let identity = launch_identity(&request).unwrap();
    let plan = plan_launch(&request, &identity, &owner(), Ok(()), Ok("digest".into())).unwrap();
    let dispatched = dispatched_identity(&identity, "dispatch-a");
    assert_eq!(dispatched.pod_dispatch_token, "dispatch-a");
    let pod = desired_pod(&plan, &request, &spec(), "dispatch-a", &StrMap::new(), None);
    assert_eq!(pod.metadata.name.as_deref(), Some(plan.pod_name.as_str()));
    assert_eq!(pod.metadata.namespace.as_deref(), Some("training"));
    let containers = &pod.spec.as_ref().unwrap().containers;
    assert_eq!(containers[0].image.as_deref(), Some("image:v1"));
    assert!(pod_matches_desired(&pod, &pod));

    let mut created = pod.clone();
    created.metadata.uid = Some("pod-uid".into());
    assert!(matches!(
        settle_pod(&plan, &dispatched, &pod, CreateReply::Created(created.clone())),
        Ok(LaunchStep::RecordProvenance(_))
    ));
    assert!(matches!(
        settle_pod(&plan, &dispatched, &pod, CreateReply::Exists(Ok(created.clone()))),
        Ok(LaunchStep::RecordProvenance(_))
    ));
    created.spec.as_mut().unwrap().host_pid = Some(true);
    assert_eq!(
        settle_pod(&plan, &dispatched, &pod, CreateReply::Exists(Ok(created)))
            .unwrap_err()
            .code,
        Code::FailedPrecondition
    );
    match settle_pod(&plan, &dispatched, &pod, CreateReply::Failed("quota".into())).unwrap() {
        LaunchStep::Respond(response) => {
            assert!(!response.success);
            assert!(response.error.contains("quota"));
        }
        LaunchStep::RecordProvenance(_) => panic!("nothing was created"),
    }
    assert!(launched().success);
}

#[test]
fn peers_share_one_headless_service() {
    let request = request();
    let identity = launch_identity(&request).unwrap();
    let plan = plan_launch(&request, &identity, &owner(), Ok(()), Ok("digest".into())).unwrap();
    let service = desired_service(
        &identity,
        &identity.execution_labels(),
        "training",
        &plan.owner_reference,
        "service-token",
    );
    assert_eq!(service.metadata.name, plan.service_name);
    assert_eq!(
        service.spec.as_ref().unwrap().cluster_ip.as_deref(),
        Some("None")
    );
    let mut exists = service.clone();
    exists.metadata.uid = Some("service-uid".into());
    assert!(settle_service(
        &identity,
        "owner-uid",
        "training",
        "service-token",
        &service,
        CreateReply::Exists(Ok(exists.clone())),
    )
    .is_ok());
    exists.spec.as_mut().unwrap().cluster_ip = Some("10.0.0.1".into());
    assert!(settle_service(
        &identity,
        "owner-uid",
        "training",
        "service-token",
        &service,
        CreateReply::Exists(Ok(exists)),
    )
    .is_err());
    assert!(settle_service(
        &identity,
        "owner-uid",
        "training",
        "service-token",
        &service,
        CreateReply::Failed("refused".into()),
    )
    .is_err());
}
