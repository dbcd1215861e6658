use spur::job_state::{is_terminal, proto_job_state_to_string, state_from_number, JobState};

const ALL: [JobState; 12] = [
    JobState::Pending,
    JobState::Running,
    JobState::Completing,
    JobState::Completed,
    JobState::Failed,
    JobState::Cancelled,
    JobState::Timeout,
    JobState::NodeFail,
    JobState::Preempted,
    JobState::Suspended,
    JobState::Deadline,
    JobState::OutOfMemory,
];

#[test]
fn test_proto_job_state_to_string_all_values() {
    for &state in &ALL {
        let wire = state.to_proto_i32();
        assert_eq!(proto_job_state_to_string(wire), format!("{state:?}"));
    }
    assert_eq!(proto_job_state_to_string(-1), "Unknown");
    assert_eq!(proto_job_state_to_string(99), "Unknown");
}

#[test]
fn test_is_terminal() {
    assert!(is_terminal("Completed"));
    assert!(is_terminal("Failed"));
    assert!(is_terminal("Cancelled"));
    assert!(!is_terminal("Running"));
    assert!(!is_terminal("Pending"));
}

#[test]
fn test_is_terminal_timeout() {
    assert!(is_terminal("Timeout"));
}

#[test]
fn test_is_terminal_nodefail() {
    assert!(is_terminal("NodeFail"));
    assert!(is_terminal("Deadline"));
    assert!(is_terminal("OutOfMemory"));
}

#[test]
fn test_is_terminal_non_terminal_states() {
    assert!(!is_terminal("Completing"));
    assert!(!is_terminal("Preempted"));
    assert!(!is_terminal("Suspended"));
    assert!(!is_terminal("Unknown"));
    assert!(!is_terminal(""));
}

#[test]
fn state_numbers_round_trip() {
    for &state in &ALL {
        assert_eq!(JobState::from_proto_i32(state.to_proto_i32()), Some(state));
        assert_eq!(state_from_number(state.to_proto_i32()), Some(state));
        assert_eq!(is_terminal(state.name()), state.is_terminal());
    }
    assert_eq!(JobState::Failed.to_proto_i32(), 4);
    assert_eq!(JobState::from_proto_i32(12), None);
}

#[test]
fn exit_codes_decide_how_a_job_completed() {
    assert_eq!(JobState::completion_state_for_exit_code(0), JobState::Completed);
    assert_eq!(JobState::completion_state_for_exit_code(1), JobState::Failed);
    assert_eq!(JobState::completion_state_for_exit_code(-1), JobState::Failed);
}
