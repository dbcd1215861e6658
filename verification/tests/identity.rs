use spur::execution_identity::PodExecutionIdentity;
use spur::k8s::{ObjectMeta, Pod};

fn pod(identity: &PodExecutionIdentity) -> Pod {
    let mut labels = identity.execution_labels();
    labels.insert("spur.amd.com/managed-by".into(), "spur-k8s-operator".into());
    Pod {
        metadata: ObjectMeta {
            labels: Some(labels),
            annotations: Some(identity.annotations()),
            ..Default::default()
        },
        ..Default::default()
    }
}

#[test]
fn pod_round_trip_preserves_immutable_execution_identity() {
    let mut identity = PodExecutionIdentity::from_launch_request(
        7,
        "generation-a",
        3,
        "worker-a",
        "submission-token-a",
    )
    .expect("valid identity");
    identity.pod_dispatch_token = "pod-token-a".to_string();
    assert_eq!(
        PodExecutionIdentity::from_pod(&pod(&identity)),
        Ok(identity)
    );
}

#[test]
fn reused_numeric_job_id_does_not_match_old_pod() {
    let old = PodExecutionIdentity::from_request(7, "generation-old", 2, "worker-old")
        .expect("valid old identity");
    let replacement = PodExecutionIdentity::from_request(7, "generation-new", 1, "worker-new")
        .expect("valid replacement identity");
    let delayed_old_pod = pod(&old);

    assert!(old.matches_pod(&delayed_old_pod));
    assert!(!replacement.matches_pod(&delayed_old_pod));
    assert_eq!(
        PodExecutionIdentity::from_pod(&delayed_old_pod)
            .expect("old annotations remain authoritative"),
        old
    );
}
