use spur::clock::TimeSpan;
use spur::wire::{core_job_spec_to_proto, submit_request_for_job, JobSpec};

#[test]
fn test_core_job_spec_to_proto_basic() {
    let spec = JobSpec {
        name: "test-job".into(),
        user: "alice".into(),
        num_nodes: 2,
        num_tasks: 4,
        cpus_per_task: 8,
        ..Default::default()
    };
    let proto = core_job_spec_to_proto(&spec);
    assert_eq!(proto.name, "test-job");
    assert_eq!(proto.user, "alice");
    assert_eq!(proto.num_nodes, 2);
    assert_eq!(proto.num_tasks, 4);
    assert_eq!(proto.cpus_per_task, 8);
}

#[test]
fn test_core_job_spec_to_proto_optional_fields() {
    let spec = JobSpec {
        name: "with-opts".into(),
        partition: Some("gpu".into()),
        account: Some("research".into()),
        qos: Some("high".into()),
        priority: Some(100),
        ..Default::default()
    };
    let proto = core_job_spec_to_proto(&spec);
    assert_eq!(proto.partition, "gpu");
    assert_eq!(proto.account, "research");
    assert_eq!(proto.qos, "high");
    assert_eq!(proto.priority, 100);
}

#[test]
fn test_core_job_spec_to_proto_none_fields_default() {
    let spec = JobSpec::default();
    let proto = core_job_spec_to_proto(&spec);
    assert_eq!(proto.partition, "");
    assert_eq!(proto.account, "");
    assert_eq!(proto.qos, "");
    assert_eq!(proto.priority, 0);
    assert!(proto.time_limit.is_none());
}

#[test]
fn test_core_job_spec_to_proto_container_fields() {
    let spec = JobSpec {
        container_image: Some("pytorch:latest".into()),
        container_mounts: vec!["/data:/data:ro".into()],
        container_mount_home: true,
        container_readonly: true,
        ..Default::default()
    };
    let proto = core_job_spec_to_proto(&spec);
    assert_eq!(proto.container_image, "pytorch:latest");
    assert_eq!(proto.container_mounts, vec!["/data:/data:ro"]);
    assert!(proto.container_mount_home);
    assert!(proto.container_readonly);
}

#[test]
fn test_core_job_spec_to_proto_time_limit() {
    let spec = JobSpec {
        time_limit: Some(TimeSpan { secs: 7200, nanos: 0 }),
        ..Default::default()
    };
    let proto = core_job_spec_to_proto(&spec);
    let tl = proto.time_limit.unwrap();
    assert_eq!(tl.seconds, 7200);
    assert_eq!(tl.nanos, 0);
}

#[test]
fn test_core_job_spec_to_proto_gres_and_deps() {
    let spec = JobSpec {
        gres: vec!["gpu:mi300x:8".into()],
        dependency: vec!["afterok:42".into()],
        array_spec: Some("0-99%10".into()),
        ..Default::default()
    };
    let proto = core_job_spec_to_proto(&spec);
    assert_eq!(proto.gres, vec!["gpu:mi300x:8"]);
    assert_eq!(proto.dependency, vec!["afterok:42"]);
    assert_eq!(proto.array_spec, "0-99%10");
}

#[test]
fn submissions_carry_their_token() {
    let spec = JobSpec {
        name: "train".into(),
        time_limit: Some(TimeSpan {
            secs: -1,
            nanos: 500_000_000,
        }),
        ..Default::default()
    };
    let request = submit_request_for_job(&spec, "token-a".into());
    assert_eq!(request.submission_token, "token-a");
    let wire = request.spec.unwrap();
    assert_eq!(wire.name, "train");
    assert_eq!(wire.time_limit.unwrap().seconds, 0, "rounded towards zero");
}
