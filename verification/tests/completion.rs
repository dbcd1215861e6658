use spur::cleanup::UpdateReply;
use spur::completion::{
    claimed_owner, completion_delivery_from_pod, completion_marked, completion_queued,
    completion_report_from_pod, deliver_pending_completion, outbox_key, rescan_pod,
    rescan_terminal_pods,
    completion_request_from_delivery, controller_job_makes_delivery_moot, extract_failure_details,
    mark_completion_delivered, oom_kill_signal, pending_completion_deliveries,
    persist_completion_delivery, refusal_may_be_moot, resolve_reporting_node,
    same_completion_payload, status_binds_pod, verified_owner_for_pod, watch_pods,
    watched_completion, OutboxStep, TARGET_NODE_LABEL,
};
use spur::crd::{
    file_completion, CompletionEntry, PodCompletionDelivery, SpurJob, SpurJobStatus,
};
use spur::execution_identity::{PodExecutionIdentity, PROVENANCE_RECORDED_ANNOTATION};
use spur::job_state::JobState;
use spur::k8s::{
    ContainerState, ContainerTermination, ContainerWait, ContainerStatus, ObjectMeta,
    OwnerReference, Pod, PodSpec, PodStatus,
};
use spur::provenance::NextAttempt;
use spur::reconcile::KubeError;
use spur::status::Code;
use spur::strmap::StrMap;
use spur::wire::JobInfo;

fn map(entries: &[(&str, &str)]) -> StrMap {
    let mut out = StrMap::new();
    for (key, value) in entries {
        out.insert(key.to_string(), value.to_string());
    }
    out
}

#[test]
fn completion_requires_durable_dispatch_token_and_pod_uid_binding() {
    let mut identity = PodExecutionIdentity::from_launch_request(
        77,
        "generation-a",
        2,
        "worker-a",
        "submission-token-a",
    )
    .unwrap();
    identity.pod_dispatch_token = "pod-token-a".to_string();
    let mut status = SpurJobStatus {
        spur_job_id: Some(77),
        submission_generation: Some("generation-a".to_string()),
        submission_token: Some("submission-token-a".to_string()),
        ..Default::default()
    };

    assert!(!status_binds_pod(&status, "pod-a", "uid-a", &identity));
    status
        .pod_dispatch_tokens
        .insert("pod-a".to_string(), "pod-token-a".to_string());
    assert!(!status_binds_pod(&status, "pod-a", "uid-a", &identity));
    status
        .pod_uids
        .insert("pod-a".to_string(), "different-uid".to_string());
    assert!(!status_binds_pod(&status, "pod-a", "uid-a", &identity));
    status
        .pod_uids
        .insert("pod-a".to_string(), "uid-a".to_string());
    assert!(status_binds_pod(&status, "pod-a", "uid-a", &identity));
}

#[test]
fn completion_outbox_survives_outage_and_restart_until_acknowledged() {
    let delivery = PodCompletionDelivery {
        pod_name: "pod-a".into(),
        pod_uid: "uid-a".into(),
        job_id: 77,
        state: JobState::Completed.to_proto_i32(),
        exit_code: 0,
        signal: 0,
        message: "Pod pod-a Succeeded".into(),
        reporting_node: "worker-a".into(),
        run_attempt: 2,
        submission_generation: "generation-a".into(),
        submission_token: "submission-token-a".into(),
        worker_incarnation: "worker-incarnation-a".into(),
        pod_dispatch_token: "dispatch-token-a".into(),
        delivered: false,
    };
    let status = SpurJobStatus {
        state: "Running".into(),
        spur_job_id: Some(77),
        submission_generation: Some("generation-a".into()),
        submission_token: Some("submission-token-a".into()),
        pod_uids: map(&[("pod-a", "uid-a")]),
        pod_dispatch_tokens: map(&[("pod-a", "dispatch-token-a")]),
        completion_deliveries: vec![CompletionEntry {
            pod_uid: "uid-a".into(),
            delivery,
        }],
        ..Default::default()
    };

    // A controller outage means no acknowledgement mutation occurs. The
    // serialized CR status is the restart boundary and retains the report.
    let mut restarted = status.clone();
    let pending = pending_completion_deliveries(&restarted);
    assert_eq!(pending.len(), 1);
    let request = completion_request_from_delivery(&pending[0].delivery, &Ok(()))
        .expect("restored delivery remains reportable");
    assert_eq!(request.job_id, 77);
    assert_eq!(request.run_attempt, 2);
    assert_eq!(request.submission_generation, "generation-a");

    // Only an accepted report transitions the durable entry. Keeping the
    // delivered tombstone prevents InitApply/rescan from re-enqueueing it.
    restarted.completion_deliveries[0].delivery.delivered = true;
    let restarted_again = restarted.clone();
    assert!(pending_completion_deliveries(&restarted_again).is_empty());
    assert_eq!(restarted_again.completion_deliveries[0].pod_uid, "uid-a");
    assert!(restarted_again.completion_deliveries[0].delivery.delivered);
}

#[test]
fn completion_fallback_moots_only_exact_terminal_or_superseded_attempt() {
    let delivery = PodCompletionDelivery {
        job_id: 77,
        run_attempt: 2,
        submission_generation: "generation-a".into(),
        submission_token: "submission-token-a".into(),
        ..Default::default()
    };
    let exact_terminal = JobInfo {
        job_id: 77,
        state: JobState::Completed.to_proto_i32(),
        run_attempt: 2,
        submission_generation: "generation-a".into(),
        submission_token: "submission-token-a".into(),
        ..Default::default()
    };
    assert!(controller_job_makes_delivery_moot(
        &exact_terminal,
        &delivery,
        Code::NotFound,
    ));
    assert!(
        !controller_job_makes_delivery_moot(
            &exact_terminal,
            &delivery,
            Code::FailedPrecondition,
        ),
        "same-attempt receipt conflicts must remain errors"
    );

    let mut later_running = exact_terminal.clone();
    later_running.state = JobState::Running.to_proto_i32();
    later_running.run_attempt = 3;
    assert!(controller_job_makes_delivery_moot(
        &later_running,
        &delivery,
        Code::FailedPrecondition,
    ));
    assert!(!controller_job_makes_delivery_moot(
        &later_running,
        &delivery,
        Code::NotFound,
    ));

    let mut later_terminal = later_running.clone();
    later_terminal.state = JobState::Failed.to_proto_i32();
    assert!(controller_job_makes_delivery_moot(
        &later_terminal,
        &delivery,
        Code::NotFound,
    ));

    let mut wrong_token = later_terminal;
    wrong_token.submission_token = "replacement-token".into();
    assert!(!controller_job_makes_delivery_moot(
        &wrong_token,
        &delivery,
        Code::NotFound,
    ));
}

fn pod_with_node_and_label(spec_node: Option<&str>, label_node: Option<&str>) -> Pod {
    let mut labels = StrMap::new();
    if let Some(n) = label_node {
        labels.insert(TARGET_NODE_LABEL.to_string(), n.to_string());
    }
    Pod {
        metadata: ObjectMeta {
            labels: if label_node.is_none() {
                None
            } else {
                Some(labels)
            },
            ..Default::default()
        },
        spec: spec_node.map(|node_name| PodSpec {
            node_name: Some(node_name.to_string()),
            ..Default::default()
        }),
        ..Default::default()
    }
}

#[test]
fn resolve_reporting_node_prefers_spec_node_name() {
    let pod = pod_with_node_and_label(Some("worker1"), Some("worker2"));
    assert_eq!(resolve_reporting_node(&pod), Some("worker1".into()));
}

#[test]
fn resolve_reporting_node_falls_back_to_target_node_label() {
    let pod = pod_with_node_and_label(None, Some("worker2"));
    assert_eq!(resolve_reporting_node(&pod), Some("worker2".into()));
}

#[test]
fn resolve_reporting_node_returns_none_when_both_missing() {
    let pod = pod_with_node_and_label(None, None);
    assert_eq!(resolve_reporting_node(&pod), None);
}

#[test]
fn resolve_reporting_node_ignores_empty_strings() {
    let pod = pod_with_node_and_label(Some(""), Some("worker2"));
    assert_eq!(resolve_reporting_node(&pod), Some("worker2".into()));
}

#[test]
fn delayed_old_completion_keeps_its_dispatched_identity_after_job_id_reuse() {
    let old = PodExecutionIdentity::from_request(
        77,
        "old-submission-generation",
        4,
        "old-worker-incarnation",
    )
    .expect("valid old identity");
    let replacement = PodExecutionIdentity::from_request(
        77,
        "replacement-generation",
        1,
        "replacement-worker-incarnation",
    )
    .expect("valid replacement identity");
    let mut labels = old.execution_labels();
    labels.insert(TARGET_NODE_LABEL.to_string(), "worker-old".into());
    let delayed_old_pod = Pod {
        metadata: ObjectMeta {
            name: Some("old-pod".into()),
            labels: Some(labels),
            annotations: Some(old.annotations()),
            ..Default::default()
        },
        ..Default::default()
    };

    let report = completion_report_from_pod(
        &delayed_old_pod,
        &old,
        JobState::Completed.to_proto_i32(),
        0,
        0,
        "old pod completed late".into(),
    )
    .expect("old Pod remains reportable with old identity");

    assert_eq!(report.job_id, replacement.key.job_id);
    assert_eq!(report.submission_generation, old.key.submission_generation);
    assert_eq!(report.run_attempt, old.key.run_attempt);
    assert_eq!(report.worker_incarnation, old.worker_incarnation);
    assert_ne!(
        report.submission_generation,
        replacement.key.submission_generation
    );

    let delivery = PodCompletionDelivery {
        pod_name: "old-pod".into(),
        pod_uid: "old-pod-uid".into(),
        job_id: report.job_id,
        state: report.state,
        exit_code: report.exit_code,
        signal: report.signal,
        message: report.message,
        reporting_node: report.reporting_node,
        run_attempt: report.run_attempt,
        submission_generation: report.submission_generation,
        submission_token: "submission-token-old".into(),
        worker_incarnation: report.worker_incarnation,
        pod_dispatch_token: "dispatch-token-old".into(),
        delivered: false,
    };
    assert_eq!(
        completion_request_from_delivery(&delivery, &Ok(()))
            .expect("durable old delivery remains exact")
            .submission_generation,
        old.key.submission_generation
    );
}

// --- extract_failure_details ---

#[test]
fn test_extract_failure_details_oom() {
    let pod = Pod {
        metadata: Default::default(),
        spec: None,
        status: Some(PodStatus {
            phase: Some("Failed".into()),
            container_statuses: Some(vec![ContainerStatus {
                name: "spur-job".into(),
                state: Some(ContainerState {
                    terminated: Some(ContainerTermination {
                        exit_code: 137,
                        reason: Some("OOMKilled".into()),
                        ..Default::default()
                    }),
                    ..Default::default()
                }),
                ..Default::default()
            }]),
            ..Default::default()
        }),
    };

    let (state, exit_code, message, oom) = extract_failure_details(&pod);
    assert_eq!(state, 4, "OOM keeps wire state JOB_FAILED");
    assert!(oom, "OOM flagged out-of-band for the signal sentinel");
    assert_eq!(exit_code, 137);
    assert!(message.contains("OOMKilled"));
}

#[test]
fn test_extract_failure_details_exit_code_nonzero() {
    let pod = Pod {
        metadata: Default::default(),
        spec: None,
        status: Some(PodStatus {
            phase: Some("Failed".into()),
            container_statuses: Some(vec![ContainerStatus {
                name: "spur-job".into(),
                state: Some(ContainerState {
                    terminated: Some(ContainerTermination {
                        exit_code: 42,
                        reason: None,
                        message: None,
                        ..Default::default()
                    }),
                    ..Default::default()
                }),
                ..Default::default()
            }]),
            ..Default::default()
        }),
    };

    let (state, exit_code, message, _oom) = extract_failure_details(&pod);
    assert_eq!(state, 4);
    assert_eq!(exit_code, 42);
    assert!(message.contains("exit_code=42"));
}

#[test]
fn test_extract_failure_details_with_reason_and_message() {
    let pod = Pod {
        metadata: Default::default(),
        spec: None,
        status: Some(PodStatus {
            phase: Some("Failed".into()),
            container_statuses: Some(vec![ContainerStatus {
                name: "spur-job".into(),
                state: Some(ContainerState {
                    terminated: Some(ContainerTermination {
                        exit_code: 1,
                        reason: Some("Error".into()),
                        message: Some("segfault in main".into()),
                        ..Default::default()
                    }),
                    ..Default::default()
                }),
                ..Default::default()
            }]),
            ..Default::default()
        }),
    };

    let (state, exit_code, message, _oom) = extract_failure_details(&pod);
    assert_eq!(state, 4);
    assert_eq!(exit_code, 1);
    assert_eq!(message, "Error: segfault in main");
}

#[test]
fn test_extract_failure_details_reason_only() {
    let pod = Pod {
        metadata: Default::default(),
        spec: None,
        status: Some(PodStatus {
            phase: Some("Failed".into()),
            container_statuses: Some(vec![ContainerStatus {
                name: "spur-job".into(),
                state: Some(ContainerState {
                    terminated: Some(ContainerTermination {
                        exit_code: 2,
                        reason: Some("DeadlineExceeded".into()),
                        message: None,
                        ..Default::default()
                    }),
                    ..Default::default()
                }),
                ..Default::default()
            }]),
            ..Default::default()
        }),
    };

    let (_, _, message, _oom) = extract_failure_details(&pod);
    assert_eq!(message, "DeadlineExceeded");
}

#[test]
fn test_extract_failure_details_image_pull_backoff() {
    let pod = Pod {
        metadata: Default::default(),
        spec: None,
        status: Some(PodStatus {
            phase: Some("Failed".into()),
            container_statuses: Some(vec![ContainerStatus {
                name: "spur-job".into(),
                state: Some(ContainerState {
                    waiting: Some(ContainerWait {
                        reason: Some("ImagePullBackOff".into()),
                        message: Some("Back-off pulling image".into()),
                    }),
                    ..Default::default()
                }),
                ..Default::default()
            }]),
            ..Default::default()
        }),
    };

    let (state, exit_code, message, _oom) = extract_failure_details(&pod);
    assert_eq!(state, 4);
    assert_eq!(exit_code, 1);
    assert!(message.contains("ImagePullBackOff"));
}

#[test]
fn test_extract_failure_details_err_image_pull() {
    let pod = Pod {
        metadata: Default::default(),
        spec: None,
        status: Some(PodStatus {
            phase: Some("Failed".into()),
            container_statuses: Some(vec![ContainerStatus {
                name: "spur-job".into(),
                state: Some(ContainerState {
                    waiting: Some(ContainerWait {
                        reason: Some("ErrImagePull".into()),
                        message: None,
                    }),
                    ..Default::default()
                }),
                ..Default::default()
            }]),
            ..Default::default()
        }),
    };

    let (state, _, message, _oom) = extract_failure_details(&pod);
    assert_eq!(state, 4);
    assert!(message.contains("ErrImagePull"));
}

#[test]
fn test_extract_failure_details_no_status() {
    let pod = Pod {
        metadata: Default::default(),
        spec: None,
        status: None,
    };
    let (state, exit_code, message, _oom) = extract_failure_details(&pod);
    assert_eq!(state, 4);
    assert_eq!(exit_code, 1);
    assert_eq!(message, "Pod failed (no status)");
}

#[test]
fn test_extract_failure_details_no_container_statuses() {
    let pod = Pod {
        metadata: Default::default(),
        spec: None,
        status: Some(PodStatus {
            phase: Some("Failed".into()),
            container_statuses: None,
            ..Default::default()
        }),
    };
    let (state, exit_code, message, _oom) = extract_failure_details(&pod);
    assert_eq!(state, 4);
    assert_eq!(exit_code, 1);
    assert_eq!(message, "Pod failed");
}

#[test]
fn test_extract_failure_details_empty_container_statuses() {
    let pod = Pod {
        metadata: Default::default(),
        spec: None,
        status: Some(PodStatus {
            phase: Some("Failed".into()),
            container_statuses: Some(vec![]),
            ..Default::default()
        }),
    };
    let (state, exit_code, message, _oom) = extract_failure_details(&pod);
    assert_eq!(state, 4);
    assert_eq!(exit_code, 1);
    assert_eq!(message, "Pod failed");
}

fn finished_pod(phase: &str) -> (Pod, PodExecutionIdentity) {
    let mut identity = PodExecutionIdentity::from_launch_request(
        77,
        "generation-a",
        2,
        "worker-a",
        "submission-token-a",
    )
    .unwrap();
    identity.pod_dispatch_token = "dispatch-a".into();
    let mut labels = identity.execution_labels();
    labels.insert(TARGET_NODE_LABEL.to_string(), "node-1".into());
    let mut annotations = identity.annotations();
    annotations.insert(PROVENANCE_RECORDED_ANNOTATION.to_string(), "true".into());
    let pod = Pod {
        metadata: ObjectMeta {
            name: Some("pod-a".into()),
            namespace: Some("training".into()),
            uid: Some("uid-a".into()),
            labels: Some(labels),
            annotations: Some(annotations),
            owner_references: Some(vec![OwnerReference {
                api_version: "spur.amd.com/v1alpha1".into(),
                kind: "SpurJob".into(),
                name: "owner".into(),
                uid: "owner-uid".into(),
                controller: Some(true),
                block_owner_deletion: Some(true),
            }]),
            ..Default::default()
        },
        status: Some(PodStatus {
            phase: Some(phase.into()),
            ..Default::default()
        }),
        ..Default::default()
    };
    (pod, identity)
}

fn owner() -> SpurJob {
    SpurJob {
        metadata: ObjectMeta {
            name: Some("owner".into()),
            namespace: Some("training".into()),
            uid: Some("owner-uid".into()),
            resource_version: Some("3".into()),
            ..Default::default()
        },
        status: Some(SpurJobStatus {
            spur_job_id: Some(77),
            submission_generation: Some("generation-a".into()),
            submission_token: Some("submission-token-a".into()),
            pod_uids: map(&[("pod-a", "uid-a")]),
            pod_dispatch_tokens: map(&[("pod-a", "dispatch-a")]),
            ..Default::default()
        }),
        ..Default::default()
    }
}

#[test]
fn finished_pods_are_delivered() {
    let (pod, identity) = finished_pod("Succeeded");
    let delivery = completion_delivery_from_pod(&pod, &identity, 137)
        .unwrap()
        .expect("a finished Pod");
    assert_eq!(delivery.job_id, 77);
    assert_eq!(delivery.exit_code, 0);
    assert_eq!(delivery.state, JobState::Completed.to_proto_i32());
    assert_eq!(delivery.reporting_node, "node-1");
    assert!(!delivery.delivered);
    let (running, identity) = finished_pod("Running");
    assert!(completion_delivery_from_pod(&running, &identity, 137)
        .unwrap()
        .is_none());
}

#[test]
fn owners_are_verified() {
    let (pod, identity) = finished_pod("Succeeded");
    let key = claimed_owner(&pod, &identity).unwrap();
    assert_eq!(key.uid, "owner-uid");
    assert!(verified_owner_for_pod(&pod, &identity, &owner()));
    let mut replaced = owner();
    replaced.metadata.uid = Some("other-uid".into());
    assert!(!verified_owner_for_pod(&pod, &identity, &replaced));
    let (mut orphan, identity) = finished_pod("Succeeded");
    orphan.metadata.owner_references = None;
    assert!(claimed_owner(&orphan, &identity).is_none());
}

#[test]
fn deliveries_are_stored_once_and_marked_once() {
    let (pod, identity) = finished_pod("Succeeded");
    let delivery = completion_delivery_from_pod(&pod, &identity, 137)
        .unwrap()
        .unwrap();
    let mut job = owner();
    match persist_completion_delivery("owner-uid", &pod, &identity, &delivery, &job).unwrap() {
        OutboxStep::Persist(patch) => {
            assert_eq!(patch.resource_version, "3");
            assert_eq!(patch.pod_uid, "uid-a");
        }
        OutboxStep::Settled => panic!("nothing is stored yet"),
    }
    job.status.as_mut().unwrap().completion_deliveries = vec![CompletionEntry {
        pod_uid: "uid-a".into(),
        delivery: delivery.clone(),
    }];
    assert!(matches!(
        persist_completion_delivery("owner-uid", &pod, &identity, &delivery, &job),
        Ok(OutboxStep::Settled)
    ));
    let mut other = delivery.clone();
    other.exit_code = 9;
    assert!(!same_completion_payload(&delivery, &other));
    assert!(persist_completion_delivery("owner-uid", &pod, &identity, &other, &job).is_err());
    match mark_completion_delivered("uid-a", &delivery, &job).unwrap() {
        OutboxStep::Persist(patch) => assert!(patch.delivery.delivered),
        OutboxStep::Settled => panic!("it is not marked yet"),
    }
    job.status.as_mut().unwrap().completion_deliveries[0]
        .delivery
        .delivered = true;
    assert!(matches!(
        mark_completion_delivered("uid-a", &delivery, &job),
        Ok(OutboxStep::Settled)
    ));
    assert!(pending_completion_deliveries(job.status.as_ref().unwrap()).is_empty());
}

#[test]
fn refused_reports_are_errors() {
    let (pod, identity) = finished_pod("Succeeded");
    let delivery = completion_delivery_from_pod(&pod, &identity, 137)
        .unwrap()
        .unwrap();
    assert!(completion_request_from_delivery(&delivery, &Err("not final".into())).is_err());
    assert!(refusal_may_be_moot(Code::NotFound));
    assert!(refusal_may_be_moot(Code::FailedPrecondition));
    assert!(!refusal_may_be_moot(Code::Unavailable));
}

#[test]
fn killed_for_memory_is_a_signal() {
    let (mut pod, identity) = finished_pod("Failed");
    pod.status.as_mut().unwrap().container_statuses = Some(vec![ContainerStatus {
        name: "spur-job".into(),
        state: Some(ContainerState {
            terminated: Some(ContainerTermination {
                exit_code: 137,
                reason: Some("OOMKilled".into()),
                ..Default::default()
            }),
            ..Default::default()
        }),
    }]);
    let signal = oom_kill_signal(0x100);
    let delivery = completion_delivery_from_pod(&pod, &identity, signal)
        .unwrap()
        .unwrap();
    assert_eq!(delivery.signal, signal);
    assert_eq!(delivery.exit_code, 0);
    assert_eq!(delivery.state, JobState::Completed.to_proto_i32());
}

#[test]
fn watched_pods_are_queued_for_their_own_job() {
    let (pod, identity) = finished_pod("Succeeded");
    let (carried, key) = watch_pods(&pod).unwrap();
    assert_eq!(carried, identity);
    assert_eq!(key.name, "owner");
    let delivery = watched_completion(&pod, &carried, &owner(), 137)
        .unwrap()
        .unwrap();
    assert_eq!(delivery.pod_uid, "uid-a");
    let mut unrecorded = owner();
    unrecorded.status.as_mut().unwrap().pod_uids = StrMap::new();
    assert!(watched_completion(&pod, &carried, &unrecorded, 137)
        .unwrap()
        .is_none());
    assert!(watch_pods(&Pod::default()).is_none());
}

#[test]
fn stored_deliveries_are_reported_for_their_own_submission() {
    let (pod, identity) = finished_pod("Succeeded");
    let delivery = completion_delivery_from_pod(&pod, &identity, 137)
        .unwrap()
        .unwrap();
    let status = owner().status.unwrap();
    let mut entry = CompletionEntry {
        pod_uid: "uid-a".into(),
        delivery,
    };
    let report = deliver_pending_completion(&status, &entry, &Ok(())).unwrap();
    assert_eq!(report.worker_incarnation, "worker-a");
    entry.delivery.submission_generation = "generation-b".into();
    assert!(deliver_pending_completion(&status, &entry, &Ok(())).is_err());
}

#[test]
fn rescans_find_pods_without_a_delivery() {
    let mut job = owner();
    assert_eq!(rescan_terminal_pods(&job).unwrap(), Some(77));
    let (pod, _) = finished_pod("Succeeded");
    let status = job.status.clone().unwrap();
    let found = rescan_pod("owner-uid", &status, &pod, 137).unwrap();
    assert_eq!(found.as_ref().unwrap().pod_uid, "uid-a");
    assert!(rescan_pod("other-uid", &status, &pod, 137).unwrap().is_none());
    let mut stored = status;
    stored.completion_deliveries = vec![CompletionEntry {
        pod_uid: "uid-a".into(),
        delivery: found.unwrap(),
    }];
    assert!(rescan_pod("owner-uid", &stored, &pod, 137).unwrap().is_none());

    job.status.as_mut().unwrap().submission_token = None;
    assert_eq!(rescan_terminal_pods(&job).unwrap(), None);
    job.status = None;
    assert!(rescan_terminal_pods(&job).is_err());
    assert!(outbox_key(&SpurJob::default()).is_err());
    assert_eq!(outbox_key(&owner()).unwrap().namespace, "training");
}

#[test]
fn outbox_updates_converge_or_fail() {
    assert!(matches!(
        completion_queued(0, UpdateReply::Applied),
        Ok(NextAttempt::Done)
    ));
    let conflict = || {
        UpdateReply::Failed(KubeError::Api {
            code: 409,
            reason: "Conflict".into(),
            message: "".into(),
        })
    };
    assert!(matches!(
        completion_marked(2, conflict()),
        Ok(NextAttempt::Retry(3))
    ));
    assert!(completion_marked(7, conflict()).is_err());
}

#[test]
fn pending_deliveries_come_in_the_order_of_their_uids() {
    let entry = |uid: &str, delivered: bool| CompletionEntry {
        pod_uid: uid.into(),
        delivery: PodCompletionDelivery {
            pod_uid: uid.into(),
            delivered,
            ..Default::default()
        },
    };
    let mut status = SpurJobStatus::default();
    for (uid, delivered) in [("uid-b", false), ("uid-d", true), ("uid-a", false), ("uid-c", false)] {
        file_completion(&mut status.completion_deliveries, entry(uid, delivered));
    }
    let uids = |entries: &[CompletionEntry]| -> Vec<String> {
        entries.iter().map(|entry| entry.pod_uid.clone()).collect()
    };
    assert_eq!(uids(&status.completion_deliveries), vec!["uid-a", "uid-b", "uid-c", "uid-d"]);
    assert_eq!(
        uids(&pending_completion_deliveries(&status)),
        vec!["uid-a", "uid-b", "uid-c"]
    );

    file_completion(&mut status.completion_deliveries, entry("uid-b", true));
    assert_eq!(status.completion_deliveries.len(), 4, "an entry takes the place of its own");
    assert!(status.completion("uid-b").unwrap().delivered);
    assert!(!status.completion("uid-c").unwrap().delivered);
    assert_eq!(uids(&pending_completion_deliveries(&status)), vec!["uid-a", "uid-c"]);
}
