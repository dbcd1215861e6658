use spur::desired::{pod_matches_desired, service_matches_desired};
use spur::k8s::{
    Container, ObjectMeta, OwnerReference, Pod, PodSpec, ResourceRequirements, Service,
    ServiceSpec, Toleration,
};
use spur::quantity::normalized_quantity;
use spur::strmap::StrMap;

fn map(entries: &[(&str, &str)]) -> StrMap {
    let mut out = StrMap::new();
    for (key, value) in entries {
        out.insert(key.to_string(), value.to_string());
    }
    out
}

fn test_owner(uid: &str) -> OwnerReference {
    OwnerReference {
        api_version: "spur.amd.com/v1alpha1".into(),
        kind: "SpurJob".into(),
        name: "owner".into(),
        uid: uid.into(),
        controller: Some(true),
        block_owner_deletion: Some(true),
    }
}

#[test]
fn quantity_normalization_compares_semantic_values() {
    assert_eq!(normalized_quantity("1024Mi"), normalized_quantity("1Gi"));
    assert_eq!(normalized_quantity("1000m"), normalized_quantity("1"));
    assert_eq!(normalized_quantity("1e3"), normalized_quantity("1k"));
    assert_ne!(normalized_quantity("1Gi"), normalized_quantity("1000Mi"));
    assert_eq!(normalized_quantity("not-a-quantity"), None);
}

#[test]
fn pod_adoption_accepts_only_api_defaults_not_workload_drift() {
    let desired = Pod {
        metadata: ObjectMeta {
            name: Some("exact-pod".into()),
            namespace: Some("training".into()),
            labels: Some(map(&[("app", "spur")])),
            annotations: Some(map(&[("nonce", "one")])),
            owner_references: Some(vec![test_owner("owner-uid")]),
            ..Default::default()
        },
        spec: Some(PodSpec {
            containers: vec![Container {
                name: "job".into(),
                image: Some("image:v1".into()),
                resources: Some(ResourceRequirements {
                    requests: Some(map(&[("memory", "1024Mi")])),
                    ..Default::default()
                }),
                ..Default::default()
            }],
            restart_policy: Some("Never".into()),
            ..Default::default()
        }),
        ..Default::default()
    };

    let mut api_defaulted = desired.clone();
    let spec = api_defaulted.spec.as_mut().unwrap();
    spec.priority = Some(0);
    spec.security_context = Some(Default::default());
    spec.tolerations = Some(vec![
        Toleration {
            key: Some("node.kubernetes.io/not-ready".into()),
            operator: Some("Exists".into()),
            effect: Some("NoExecute".into()),
            toleration_seconds: Some(300),
            ..Default::default()
        },
        Toleration {
            key: Some("node.kubernetes.io/unreachable".into()),
            operator: Some("Exists".into()),
            effect: Some("NoExecute".into()),
            toleration_seconds: Some(300),
            ..Default::default()
        },
    ]);
    spec.containers[0]
        .resources
        .as_mut()
        .unwrap()
        .requests
        .as_mut()
        .unwrap()
        .insert("memory".into(), "1Gi".into());
    assert!(pod_matches_desired(&api_defaulted, &desired));

    let mut changed_image = api_defaulted.clone();
    changed_image.spec.as_mut().unwrap().containers[0].image = Some("image:v2".into());
    assert!(!pod_matches_desired(&changed_image, &desired));

    let mut changed_isolation = api_defaulted.clone();
    changed_isolation.spec.as_mut().unwrap().host_pid = Some(true);
    assert!(!pod_matches_desired(&changed_isolation, &desired));

    let mut changed_security = api_defaulted.clone();
    changed_security
        .spec
        .as_mut()
        .unwrap()
        .security_context
        .as_mut()
        .unwrap()
        .run_as_user = Some(1_000);
    assert!(!pod_matches_desired(&changed_security, &desired));

    let mut extra_metadata = api_defaulted;
    extra_metadata
        .metadata
        .labels
        .as_mut()
        .unwrap()
        .insert("attacker".into(), "true".into());
    assert!(!pod_matches_desired(&extra_metadata, &desired));
}

#[test]
fn service_adoption_accepts_api_assignment_but_rejects_exposure_drift() {
    let desired = Service {
        metadata: ObjectMeta {
            name: Some("exact-service".into()),
            namespace: Some("training".into()),
            labels: Some(map(&[("app", "spur")])),
            annotations: Some(map(&[("nonce", "one")])),
            owner_references: Some(vec![test_owner("owner-uid")]),
            ..Default::default()
        },
        spec: Some(ServiceSpec {
            cluster_ip: Some("None".into()),
            type_: Some("ClusterIP".into()),
            selector: Some(map(&[("app", "spur")])),
            ..Default::default()
        }),
        ..Default::default()
    };
    let mut api_defaulted = desired.clone();
    let spec = api_defaulted.spec.as_mut().unwrap();
    spec.cluster_ips = Some(vec!["None".into()]);
    spec.ip_families = Some(vec!["IPv4".into()]);
    spec.ip_family_policy = Some("SingleStack".into());
    assert!(service_matches_desired(&api_defaulted, &desired));

    let mut exposed = api_defaulted.clone();
    exposed.spec.as_mut().unwrap().external_ips = Some(vec!["203.0.113.1".into()]);
    assert!(!service_matches_desired(&exposed, &desired));

    let mut changed_selector = api_defaulted;
    changed_selector
        .spec
        .as_mut()
        .unwrap()
        .selector
        .as_mut()
        .unwrap()
        .insert("app".into(), "other".into());
    assert!(!service_matches_desired(&changed_selector, &desired));
}

#[test]
fn quantities_have_one_normal_form() {
    assert_eq!(normalized_quantity("1Gi"), normalized_quantity("1073741824"));
    assert_eq!(normalized_quantity("0.5"), normalized_quantity("500m"));
    assert_eq!(normalized_quantity("+2"), normalized_quantity("2.0"));
    assert_eq!(normalized_quantity("-0"), normalized_quantity("0"));
    assert_eq!(normalized_quantity("1E"), normalized_quantity("1000P"));
    assert_eq!(normalized_quantity("1E2"), normalized_quantity("100"));
    assert_ne!(normalized_quantity("-1"), normalized_quantity("1"));
    assert_eq!(normalized_quantity(""), None);
    assert_eq!(normalized_quantity("1.2.3"), None);
}
