use spur::execution_identity::PodExecutionIdentity;
use spur::naming::{
    execution_pod_hostname, execution_pod_name, execution_rank_zero_dns_name,
    execution_service_name, sanitize_k8s_label_value, sanitize_k8s_name,
};

#[test]
fn test_sanitize_k8s_name() {
    assert_eq!(sanitize_k8s_name("gpu-node-01"), "gpu-node-01");
    assert_eq!(sanitize_k8s_name("NODE_WITH.DOTS"), "node-with-dots");
    assert_eq!(sanitize_k8s_name("--leading--"), "leading");
}

#[test]
fn test_sanitize_k8s_name_uppercase() {
    assert_eq!(sanitize_k8s_name("GPU-NODE-01"), "gpu-node-01");
}

#[test]
fn test_sanitize_k8s_name_spaces_and_special() {
    assert_eq!(sanitize_k8s_name("my node@#$123"), "my-node---123");
}

#[test]
fn test_sanitize_k8s_name_all_special() {
    assert_eq!(sanitize_k8s_name("@@@"), "");
}

#[test]
fn test_sanitize_k8s_name_already_clean() {
    assert_eq!(sanitize_k8s_name("worker-3"), "worker-3");
}

#[test]
fn execution_pod_name_is_stable_and_exact_identity_scoped() {
    let identity = PodExecutionIdentity::from_request(41, "generation-a", 2, "worker-a")
        .expect("identity");
    assert_eq!(
        execution_pod_name(&identity, "GPU-NODE-01"),
        execution_pod_name(&identity, "GPU-NODE-01")
    );

    for replacement in [
        PodExecutionIdentity::from_request(41, "generation-b", 2, "worker-a").unwrap(),
        PodExecutionIdentity::from_request(41, "generation-a", 3, "worker-a").unwrap(),
        PodExecutionIdentity::from_request(41, "generation-a", 2, "worker-b").unwrap(),
    ] {
        assert_ne!(
            execution_pod_name(&identity, "GPU-NODE-01"),
            execution_pod_name(&replacement, "GPU-NODE-01"),
            "a reused numeric job ID must have a distinct Pod name"
        );
    }
}

#[test]
fn execution_pod_name_preserves_digest_with_long_node_name() {
    let identity = PodExecutionIdentity::from_request(41, "generation-a", 2, "worker-a")
        .expect("identity");
    let name = execution_pod_name(&identity, &"node".repeat(100));
    assert!(name.len() <= 253);
    assert!(name.starts_with("spur-job-41-"));
    assert!(!name.ends_with('-'));
}

#[test]
fn multi_node_requeue_uses_attempt_unique_service_and_shared_peer_dns() {
    let first_worker = PodExecutionIdentity::from_launch_request(
        41,
        "generation-a",
        1,
        "worker-a",
        "submission-token-a",
    )
    .expect("first worker identity");
    let peer_worker = PodExecutionIdentity::from_launch_request(
        41,
        "generation-a",
        1,
        "worker-b",
        "submission-token-a",
    )
    .expect("peer worker identity");
    let second_attempt = PodExecutionIdentity::from_launch_request(
        41,
        "generation-a",
        2,
        "worker-a",
        "submission-token-a",
    )
    .expect("second attempt identity");

    assert_eq!(
        execution_service_name(&first_worker),
        execution_service_name(&peer_worker),
        "all peers in one attempt need the same DNS subdomain"
    );
    assert_ne!(
        execution_service_name(&first_worker),
        execution_service_name(&second_attempt),
        "a naturally completed attempt must not block a requeue Service"
    );
    assert!(execution_service_name(&second_attempt).len() <= 63);
    assert_eq!(
        execution_rank_zero_dns_name(&first_worker, "training"),
        format!(
            "rank-0.{}.training.svc.cluster.local",
            execution_service_name(&first_worker)
        )
    );
    assert_eq!(execution_pod_hostname(u32::MAX), "rank-4294967295");
}

#[test]
fn kubernetes_label_values_are_bounded() {
    let value = sanitize_k8s_label_value(&"Very_Long.Node_Name".repeat(20));
    assert!(value.len() <= 63);
    assert!(!value.ends_with('-'));
}

#[test]
fn label_values_are_cut_before_the_limit_and_trimmed() {
    assert_eq!(sanitize_k8s_label_value("GPU_Node.1"), "gpu-node-1");
    let long = format!("{}-tail", "a".repeat(62));
    assert_eq!(sanitize_k8s_label_value(&long), "a".repeat(62));
}

#[test]
fn names_lower_case_letters_outside_ascii() {
    // The dotted capital lowers to an i and a combining dot, which is replaced.
    assert_eq!(sanitize_k8s_name("\u{130}x"), "i-x");
    assert_eq!(sanitize_k8s_name("KELVIN-\u{212A}"), "kelvin-k");
}
