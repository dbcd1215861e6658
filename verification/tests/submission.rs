use spur::cleanup::ControllerCleanupFence;
use spur::crd::{SpurJob, SpurJobStatus};
use spur::job_state::JobState;
use spur::reconcile::{Action, ReconcileError};
use spur::submission::{
    advance_job, advance_with_token, after_submission, close_after_fence,
    fail_closed_invalid_submission, handle_job, node_names,
    poll_job, should_submit, submission_accepted, submit_to_controller, Admission, FailClosedStep,
    JobStep, SubmitJobResponse, SubmitStep,
};
use spur::wire::JobInfo;

#[test]
fn test_should_submit_when_no_job_id() {
    let status = SpurJobStatus::default();
    assert!(should_submit(&status));
}

#[test]
fn test_should_not_submit_when_job_id_present() {
    let status = SpurJobStatus {
        spur_job_id: Some(42),
        ..Default::default()
    };
    assert!(!should_submit(&status));
}

#[test]
fn test_should_submit_ignores_state() {
    let status = SpurJobStatus {
        state: "Running".into(),
        spur_job_id: None,
        ..Default::default()
    };
    assert!(should_submit(&status));
}

#[test]
fn test_should_not_submit_regardless_of_state() {
    let status = SpurJobStatus {
        state: "Pending".into(),
        spur_job_id: Some(1),
        ..Default::default()
    };
    assert!(!should_submit(&status));
}

#[test]
fn node_lists_are_split_and_trimmed() {
    assert_eq!(node_names("n1, n2\t"), vec!["n1", "n2"]);
    assert_eq!(node_names("n1"), vec!["n1"]);
}

fn info(state: JobState) -> JobInfo {
    JobInfo {
        job_id: 42,
        state: state.to_proto_i32(),
        run_attempt: 1,
        submission_generation: "generation-42".into(),
        submission_token: "token-42".into(),
        nodelist: "n1,n2".into(),
    }
}

fn submitted() -> SpurJobStatus {
    SpurJobStatus {
        state: "Pending".into(),
        spur_job_id: Some(42),
        submission_generation: Some("generation-42".into()),
        submission_token: Some("token-42".into()),
        launch_spec_sha256: Some("digest".into()),
        ..Default::default()
    }
}

#[test]
fn tokens_are_recorded_before_a_job_is_submitted() {
    let mut status = SpurJobStatus::default();
    match advance_with_token(&status, "digest", "token-42") {
        JobStep::Persist(next, _) => {
            assert_eq!(next.submission_token.as_deref(), Some("token-42"));
            assert_eq!(next.launch_spec_sha256.as_deref(), Some("digest"));
            assert!(should_submit(&next));
            status = next;
        }
        other => panic!("unexpected: {other:?}"),
    }
    assert!(matches!(advance_job(&status, "digest"), JobStep::Submit));
    match advance_job(&submitted(), "digest") {
        JobStep::Poll(request) => {
            assert_eq!(request.job_id, 42);
            assert_eq!(request.submission_token, "token-42");
        }
        other => panic!("unexpected: {other:?}"),
    }
}

#[test]
fn fresh_submission_tokens_are_random() {
    let token = |step| match step {
        JobStep::Persist(next, _) => {
            let next: SpurJobStatus = next;
            next.submission_token.unwrap()
        }
        other => panic!("unexpected: {other:?}"),
    };
    let first = token(advance_job(&SpurJobStatus::default(), "digest"));
    let second = token(advance_job(&SpurJobStatus::default(), "digest"));
    assert_eq!(first.len(), 36);
    assert_ne!(first, second);
}

#[test]
fn finished_jobs_rest() {
    let mut status = submitted();
    status.state = "Completed".into();
    assert!(matches!(
        advance_job(&status, "digest"),
        JobStep::Finish(Action::AwaitChange)
    ));
}

#[test]
fn jobs_are_submitted_once() {
    let mut job = SpurJob {
        status: Some(SpurJobStatus {
            submission_token: Some("token-42".into()),
            launch_spec_sha256: Some("digest".into()),
            ..Default::default()
        }),
        ..Default::default()
    };
    match submit_to_controller(&job, &Ok(()), &Ok("digest".into())).unwrap() {
        SubmitStep::Submit(token) => assert_eq!(token, "token-42"),
        SubmitStep::AlreadySubmitted => panic!("nothing was submitted yet"),
    }
    assert!(submit_to_controller(&job, &Ok(()), &Ok("other".into())).is_err());
    let accepted = submission_accepted(
        job.status.as_ref().unwrap(),
        "token-42",
        &SubmitJobResponse {
            job_id: 42,
            submission_generation: "generation-42".into(),
        },
    )
    .unwrap();
    assert_eq!(accepted.spur_job_id, Some(42));
    job.status = Some(accepted);
    assert!(matches!(
        submit_to_controller(&job, &Ok(()), &Ok("digest".into())),
        Ok(SubmitStep::AlreadySubmitted)
    ));
}

#[test]
fn polling_keeps_the_identity() {
    let step = poll_job(&submitted(), 42, &info(JobState::Running)).unwrap();
    let next = step.persist.expect("the state changed");
    assert_eq!(next.state, "Running");
    assert_eq!(next.spur_job_id, Some(42));
    assert_eq!(next.assigned_nodes, vec!["n1", "n2"]);
    assert_eq!(next.submission_generation.as_deref(), Some("generation-42"));

    let mut replaced = info(JobState::Running);
    replaced.submission_generation = "generation-43".into();
    let halted = poll_job(&submitted(), 42, &replaced).unwrap();
    let status = halted.persist.expect("the job is halted");
    assert_eq!(status.state, "StaleIdentity");
    assert_eq!(status.submission_generation.as_deref(), Some("generation-42"));
    assert!(matches!(halted.action, Action::AwaitChange));

    let mut retaken = info(JobState::Running);
    retaken.submission_token = "other-token".into();
    let halted = poll_job(&submitted(), 42, &retaken).unwrap();
    assert_eq!(halted.persist.unwrap().state, "StaleIdentity");

    let mut legacy = submitted();
    legacy.submission_generation = None;
    legacy.submission_token = None;
    let halted = poll_job(&legacy, 42, &info(JobState::Running)).unwrap();
    assert_eq!(halted.persist.unwrap().state, "MigrationRequired");

    let mut anonymous = info(JobState::Running);
    anonymous.submission_generation = String::new();
    assert!(poll_job(&submitted(), 42, &anonymous).is_err());
}

#[test]
fn invalid_jobs_are_refused_without_a_submission() {
    match fail_closed_invalid_submission(&SpurJobStatus::default(), "bad image") {
        FailClosedStep::Reject(status) => {
            assert_eq!(status.state, "Rejected");
            assert_eq!(status.message.as_deref(), Some("bad image"));
        }
        FailClosedStep::Fence => panic!("nothing was submitted"),
    }
    assert!(matches!(
        fail_closed_invalid_submission(&submitted(), "bad image"),
        FailClosedStep::Fence
    ));
    let mut job = SpurJob {
        status: Some(SpurJobStatus::default()),
        ..Default::default()
    };
    assert!(handle_job(&job, &Ok(()), &Ok("digest".into())).is_err());
    job.metadata.namespace = Some("training".into());
    job.metadata.name = Some("job".into());
    match handle_job(&job, &Err("bad image".into()), &Ok("digest".into())).unwrap() {
        Admission::FailClosed(message) => assert!(message.contains("bad image")),
        other => panic!("unexpected: {other:?}"),
    }
}

#[test]
fn fenced_jobs_are_closed_when_the_controller_is_done() {
    let status = submitted();
    let (pending, outcome) =
        close_after_fence(&ControllerCleanupFence::Pending(None), &status, "bad image");
    assert_eq!(pending.state, "CancellingInvalidSpec");
    assert_eq!(outcome.unwrap_err(), ReconcileError::CleanupPending);
    let (done, outcome) =
        close_after_fence(&ControllerCleanupFence::Complete(None), &status, "bad image");
    assert_eq!(done.state, "Failed");
    assert_eq!(done.message.as_deref(), Some("bad image"));
    assert_eq!(done.spur_job_id, Some(42));
    assert!(matches!(outcome, Ok(Action::AwaitChange)));
    assert!(matches!(after_submission(true), Action::RequeueMillis(5000)));
    assert!(matches!(after_submission(false), Action::RequeueMillis(2000)));
}
