use spur::crd::{SpurJob, SpurJobStatus};
use spur::execution_identity::PodExecutionIdentity;
use spur::k8s::{ObjectMeta, Pod, Service};
use spur::status::Code;
use spur::terminate::{
    cancel_job, job_selector, list_exact_pods, list_exact_services, owner_namespace, pods_round,
    removal_done, services_round, terminate_exact_execution, termination_timed_out,
    AgentJobControlMode, ExecutionRequest, NextStage, RemovalReply, Stage,
};

fn identity() -> PodExecutionIdentity {
    PodExecutionIdentity::from_request(41, "generation-a", 2, "worker-a").unwrap()
}

fn meta(name: &str) -> ObjectMeta {
    ObjectMeta {
        name: Some(name.into()),
        namespace: Some("training".into()),
        uid: Some(format!("{name}-uid")),
        ..Default::default()
    }
}

#[test]
fn pods_go_before_services() {
    assert!(matches!(
        terminate_exact_execution(Stage::Pods, 2),
        NextStage::RemoveAndRepeat(Stage::Pods)
    ));
    assert!(matches!(
        terminate_exact_execution(Stage::Pods, 0),
        NextStage::Enter(Stage::Services)
    ));
    assert!(matches!(
        terminate_exact_execution(Stage::Services, 1),
        NextStage::RemoveAndRepeat(Stage::Services)
    ));
    assert!(matches!(
        terminate_exact_execution(Stage::Services, 0),
        NextStage::Finished
    ));
}

#[test]
fn removals_name_the_uid() {
    let round = pods_round(&vec![Pod {
        metadata: meta("pod-a"),
        ..Default::default()
    }]);
    assert!(round.defect.is_none());
    assert_eq!(round.removals.len(), 1);
    assert_eq!(round.removals[0].uid, "pod-a-uid");
    assert_eq!(round.removals[0].namespace, "training");
    assert_eq!(round.removals[0].grace_period_seconds, Some(0));

    let mut nameless = meta("service-a");
    nameless.uid = None;
    let round = services_round(&vec![
        Service {
            metadata: meta("service-b"),
            ..Default::default()
        },
        Service {
            metadata: nameless,
            ..Default::default()
        },
    ]);
    assert_eq!(round.removals.len(), 1, "what comes before the defect is removed");
    assert_eq!(round.removals[0].name, "service-b");
    assert_eq!(round.removals[0].uid, "service-b-uid");
    assert_eq!(round.removals[0].grace_period_seconds, None);
    assert!(round.defect.is_some());
}

#[test]
fn vanished_objects_count_as_removed() {
    let round = pods_round(&vec![Pod {
        metadata: meta("pod-a"),
        ..Default::default()
    }]);
    let removal = &round.removals[0];
    assert!(removal_done(Stage::Pods, removal, RemovalReply::Accepted).is_ok());
    for code in [404, 409] {
        let reply = RemovalReply::Failed {
            code: Some(code),
            error: "moot".into(),
        };
        assert!(removal_done(Stage::Pods, removal, reply).is_ok());
    }
    for code in [Some(500), None] {
        let reply = RemovalReply::Failed {
            code,
            error: "refused".into(),
        };
        let status = removal_done(Stage::Pods, removal, reply).unwrap_err();
        assert!(status.message.contains("refused"));
    }
}

#[test]
fn only_termination_is_served() {
    let request = ExecutionRequest {
        job_id: 41,
        submission_generation: "generation-a".into(),
        run_attempt: 2,
        worker_incarnation: "worker-a".into(),
    };
    assert_eq!(
        cancel_job(&request, Some(AgentJobControlMode::TerminateAndReap)).unwrap(),
        identity()
    );
    assert!(cancel_job(&request, Some(AgentJobControlMode::SignalOnly)).is_err());
    assert!(cancel_job(&request, None).is_err());
    let mut anonymous = request.clone();
    anonymous.submission_generation = String::new();
    assert_eq!(
        cancel_job(&anonymous, Some(AgentJobControlMode::TerminateAndReap))
            .unwrap_err()
            .code,
        Code::InvalidArgument
    );
}

#[test]
fn lists_that_fail_are_reported() {
    let owner = SpurJob {
        metadata: meta("owner"),
        status: Some(SpurJobStatus::default()),
        ..Default::default()
    };
    assert!(list_exact_pods(&owner, &identity(), Err("refused".into()), false).is_err());
    assert!(list_exact_services(&owner, &identity(), Err("refused".into())).is_err());
    assert_eq!(owner_namespace(&owner).unwrap(), "training");
    assert!(owner_namespace(&SpurJob::default()).is_err());
    assert_eq!(job_selector(41), "spur.amd.com/job-id=41");
    let late = termination_timed_out(Stage::Pods, &identity());
    assert_eq!(late.code, Code::DeadlineExceeded);
    assert!(late.message.contains("41"));
}
