use spur::pmix_dispatch::{
    batch_prepare_token, multi_node_pmix_unsupported, prepare_answer, prepare_pmix_on_nodes,
    release_pmix_on_agents, step_prepare_token, validate_multi_node_pmix_nodelist, NodeSource,
    PmixLaunch, PmixPreparedReleaseGuard, PrepareResult, MPI_PMIX,
    MULTI_NODE_PMIX_K8S_UNSUPPORTED,
};

#[test]
fn multi_node_pmix_unsupported_on_k8s_agents() {
    let err = multi_node_pmix_unsupported(&vec![NodeSource::Kubernetes {
        namespace: "spur-ci".into(),
    }]);
    assert_eq!(err.as_deref(), Some(MULTI_NODE_PMIX_K8S_UNSUPPORTED));
}

#[test]
fn multi_node_pmix_allowed_on_native_hosts() {
    let err = multi_node_pmix_unsupported(&vec![NodeSource::NativeHost]);
    assert!(err.is_none());
}

#[test]
fn prepare_tokens_are_stable_and_scope_batch_from_steps() {
    assert_eq!(
        batch_prepare_token("generation-a", 7),
        "batch:generation-a:7"
    );
    assert_eq!(
        step_prepare_token("generation-a", 7, 3),
        "step:generation-a:7:3"
    );
    assert_ne!(
        batch_prepare_token("generation-a", 7),
        step_prepare_token("generation-a", 7, 3)
    );
    assert_ne!(
        step_prepare_token("generation-a", 7, 3),
        step_prepare_token("generation-a", 7, 4)
    );
    assert_ne!(
        batch_prepare_token("generation-a", 7),
        batch_prepare_token("generation-b", 7)
    );
}

#[test]
fn multi_node_pmix_nodelist_rejects_k8s_agent_at_submit() {
    let err = validate_multi_node_pmix_nodelist(
        MPI_PMIX,
        2,
        Some("k8s-worker1"),
        |name| {
            if name == "k8s-worker1" {
                Some(NodeSource::Kubernetes {
                    namespace: "spur-ci".into(),
                })
            } else {
                Some(NodeSource::NativeHost)
            }
        },
    );
    assert_eq!(err.unwrap_err(), MULTI_NODE_PMIX_K8S_UNSUPPORTED);
}

#[test]
fn multi_node_pmix_nodelist_allows_native_hosts_at_submit() {
    assert!(validate_multi_node_pmix_nodelist(
        MPI_PMIX,
        2,
        Some("n1,n2"),
        |_| Some(NodeSource::NativeHost),
    )
    .is_ok());
}

#[test]
fn single_node_jobs_may_name_any_node() {
    let on_k8s = |_: &str| {
        Some(NodeSource::Kubernetes {
            namespace: "spur-ci".into(),
        })
    };
    assert!(validate_multi_node_pmix_nodelist(MPI_PMIX, 1, Some("w1"), on_k8s).is_ok());
    assert!(validate_multi_node_pmix_nodelist("none", 2, Some("w1"), on_k8s).is_ok());
    assert!(validate_multi_node_pmix_nodelist(MPI_PMIX, 2, None, on_k8s).is_ok());
    assert!(validate_multi_node_pmix_nodelist(MPI_PMIX, 2, Some("n1, w1"), |name| {
        if name == "w1" {
            Some(NodeSource::Kubernetes {
                namespace: "spur-ci".into(),
            })
        } else {
            None
        }
    })
    .is_err());
}

#[test]
fn a_failed_node_fails_the_launch() {
    assert_eq!(prepare_answer(true, "ignored".into()), Ok(()));
    assert_eq!(prepare_answer(false, "no room".into()), Err("no room".into()));

    let fine = prepare_pmix_on_nodes(&vec![PrepareResult::Prepared, PrepareResult::Prepared], true);
    assert_eq!(fine.result, Ok(()));
    assert!(!fine.release_all);

    let failed = vec![
        PrepareResult::Prepared,
        PrepareResult::Failed {
            node_name: "n2".into(),
            error: "refused".into(),
        },
        PrepareResult::Broken {
            error: "panicked".into(),
        },
    ];
    let step = prepare_pmix_on_nodes(&failed, true);
    let said = step.result.unwrap_err();
    assert!(said.contains("n2"));
    assert!(said.contains("refused"));
    assert!(step.release_all);
    assert!(!prepare_pmix_on_nodes(&failed, false).release_all);
}

#[test]
fn guards_release_until_disarmed() {
    let agents = vec![
        ("n1:6818".to_string(), "w1".to_string()),
        ("n2:6818".to_string(), "w2".to_string()),
    ];
    let mut guard =
        PmixPreparedReleaseGuard::new(7, "generation-a".into(), 1, "token".into(), agents.clone());
    let releases = guard.releases();
    assert_eq!(releases.len(), 2);
    assert_eq!(releases[1].agent_addr, "n2:6818");
    assert_eq!(releases[1].worker_incarnation, "w2");
    assert_eq!(releases[1].launch.prepare_token, "token");
    guard.disarm();
    assert!(guard.releases().is_empty());

    let launch = PmixLaunch {
        job_id: 7,
        submission_generation: "generation-a".into(),
        run_attempt: 1,
        prepare_token: "token".into(),
    };
    assert_eq!(release_pmix_on_agents(&agents, &launch)[0].launch.job_id, 7);
}
