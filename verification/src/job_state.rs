//! The states of a job.

use vstd::prelude::*;
use crate::text::same_text;

verus! {

/// The state of a job at the controller.
#[derive(Clone, Copy, Debug, PartialEq, Eq, Structural)]
pub enum JobState {
    Pending,
    Running,
    Completing,
    Completed,
    Failed,
    Cancelled,
    Timeout,
    NodeFail,
    Preempted,
    Suspended,
    Deadline,
    OutOfMemory,
}

/// The number that stands for a state on the wire.
pub open spec fn wire_number(state: JobState) -> i32 {
    match state {
        JobState::Pending => 0,
        JobState::Running => 1,
        JobState::Completing => 2,
        JobState::Completed => 3,
        JobState::Failed => 4,
        JobState::Cancelled => 5,
        JobState::Timeout => 6,
        JobState::NodeFail => 7,
        JobState::Preempted => 8,
        JobState::Suspended => 9,
        JobState::Deadline => 10,
        JobState::OutOfMemory => 11,
    }
}

/// The name of a state.
pub open spec fn state_name(state: JobState) -> Seq<char> {
    match state {
        JobState::Pending => "Pending"@,
        JobState::Running => "Running"@,
        JobState::Completing => "Completing"@,
        JobState::Completed => "Completed"@,
        JobState::Failed => "Failed"@,
        JobState::Cancelled => "Cancelled"@,
        JobState::Timeout => "Timeout"@,
        JobState::NodeFail => "NodeFail"@,
        JobState::Preempted => "Preempted"@,
        JobState::Suspended => "Suspended"@,
        JobState::Deadline => "Deadline"@,
        JobState::OutOfMemory => "OutOfMemory"@,
    }
}

/// Whether a job in this state has ended.
pub open spec fn state_is_final(state: JobState) -> bool {
    state is Completed || state is Failed || state is Cancelled || state is Timeout
        || state is NodeFail || state is Deadline || state is OutOfMemory
}

impl JobState {
    /// The number that stands for the state on the wire.
    pub fn to_proto_i32(self) -> (out: i32)
        ensures
            out == wire_number(self),
    {
        match self {
            JobState::Pending => 0,
            JobState::Running => 1,
            JobState::Completing => 2,
            JobState::Completed => 3,
            JobState::Failed => 4,
            JobState::Cancelled => 5,
            JobState::Timeout => 6,
            JobState::NodeFail => 7,
            JobState::Preempted => 8,
            JobState::Suspended => 9,
            JobState::Deadline => 10,
            JobState::OutOfMemory => 11,
        }
    }

    /// The state that a number stands for on the wire.
    pub fn from_proto_i32(number: i32) -> (out: Option<Self>)
        ensures
            match out {
                Some(state) => wire_number(state) == number,
                None => forall|state: JobState| #[trigger] wire_number(state) != number,
            },
    {
        match number {
            0 => Some(JobState::Pending),
            1 => Some(JobState::Running),
            2 => Some(JobState::Completing),
            3 => Some(JobState::Completed),
            4 => Some(JobState::Failed),
            5 => Some(JobState::Cancelled),
            6 => Some(JobState::Timeout),
            7 => Some(JobState::NodeFail),
            8 => Some(JobState::Preempted),
            9 => Some(JobState::Suspended),
            10 => Some(JobState::Deadline),
            11 => Some(JobState::OutOfMemory),
            _ => None,
        }
    }

    /// The name of the state.
    pub fn name(self) -> (out: &'static str)
        ensures
            out@ == state_name(self),
    {
        match self {
            JobState::Pending => "Pending",
            JobState::Running => "Running",
            JobState::Completing => "Completing",
            JobState::Completed => "Completed",
            JobState::Failed => "Failed",
            JobState::Cancelled => "Cancelled",
            JobState::Timeout => "Timeout",
            JobState::NodeFail => "NodeFail",
            JobState::Preempted => "Preempted",
            JobState::Suspended => "Suspended",
            JobState::Deadline => "Deadline",
            JobState::OutOfMemory => "OutOfMemory",
        }
    }

    /// Whether a job in this state has ended.
    pub fn is_terminal(self) -> (yes: bool)
        ensures
            yes == state_is_final(self),
    {
        match self {
            JobState::Completed
            | JobState::Failed
            | JobState::Cancelled
            | JobState::Timeout
            | JobState::NodeFail
            | JobState::Deadline
            | JobState::OutOfMemory => true,
            JobState::Pending
            | JobState::Running
            | JobState::Completing
            | JobState::Preempted
            | JobState::Suspended => false,
        }
    }

    /// The state of a job that ended with this exit code.
    pub fn completion_state_for_exit_code(exit_code: i32) -> (out: Self)
        ensures
            out == completion_state(exit_code),
    {
        if exit_code == 0 {
            JobState::Completed
        } else {
            JobState::Failed
        }
    }
}

/// The state of a job that ended with this exit code.
pub open spec fn completion_state(exit_code: i32) -> JobState {
    if exit_code == 0 {
        JobState::Completed
    } else {
        JobState::Failed
    }
}

/// The state that a number stands for on the wire.
pub open spec fn state_of_number(number: i32) -> Option<JobState> {
    if exists|state: JobState| #[trigger] wire_number(state) == number {
        Some(choose|state: JobState| #[trigger] wire_number(state) == number)
    } else {
        None
    }
}

/// No two states share a number, so a number read back is the state written.
pub proof fn law_state_numbers_round_trip(state: JobState)
    ensures
        state_of_number(wire_number(state)) == Some(state),
        forall|other: JobState| #[trigger]
            wire_number(other) == wire_number(state) ==> other == state,
{
}

/// The name of the state that a number stands for on the wire.
pub open spec fn name_of_number(number: i32) -> Seq<char> {
    match state_of_number(number) {
        Some(state) => state_name(state),
        None => "Unknown"@,
    }
}

/// The state that a number stands for on the wire.
pub fn state_from_number(number: i32) -> (out: Option<JobState>)
    ensures
        out == state_of_number(number),
{
    let out = JobState::from_proto_i32(number);
    proof {
        if let Some(state) = out {
            law_state_numbers_round_trip(state);
        }
    }
    out
}

/// The name of the state that a number stands for on the wire.
pub fn proto_job_state_to_string(state: i32) -> (out: String)
    ensures
        out@ == name_of_number(state),
{
    match state_from_number(state) {
        Some(state) => state.name().to_owned(),
        None => "Unknown".to_owned(),
    }
}

/// Whether a job resource in this state is done with.
pub open spec fn name_is_final(state: Seq<char>) -> bool {
    ||| state == "Completed"@
    ||| state == "Failed"@
    ||| state == "Cancelled"@
    ||| state == "Timeout"@
    ||| state == "Deadline"@
    ||| state == "OutOfMemory"@
    ||| state == "NodeFail"@
    ||| state == "Rejected"@
    ||| state == "MigrationRequired"@
    ||| state == "StaleIdentity"@
}

/// Whether a job resource in this state is done with.
pub fn is_terminal(state: &str) -> (yes: bool)
    ensures
        yes == name_is_final(state@),
{
    same_text(state, "Completed") || same_text(state, "Failed") || same_text(state, "Cancelled")
        || same_text(state, "Timeout") || same_text(state, "Deadline") || same_text(
        state,
        "OutOfMemory",
    ) || same_text(state, "NodeFail") || same_text(state, "Rejected") || same_text(
        state,
        "MigrationRequired",
    ) || same_text(state, "StaleIdentity")
}

/// A job resource is done with in a state of the controller exactly when the
/// controller's job has ended in it.
pub proof fn law_names_agree_on_the_end(state: JobState)
    ensures
        name_is_final(state_name(state)) == state_is_final(state),
{
    reveal_strlit("Completed");
    reveal_strlit("Failed");
    reveal_strlit("Cancelled");
    reveal_strlit("Timeout");
    reveal_strlit("Deadline");
    reveal_strlit("OutOfMemory");
    reveal_strlit("NodeFail");
    reveal_strlit("Rejected");
    reveal_strlit("MigrationRequired");
    reveal_strlit("StaleIdentity");
    reveal_strlit("Pending");
    reveal_strlit("Running");
    reveal_strlit("Completing");
    reveal_strlit("Preempted");
    reveal_strlit("Suspended");
    let name = state_name(state);
    if !state_is_final(state) {
        assert(name.len() == 7 || name.len() == 10 || name.len() == 9);
        assert(name[0] == 'P' || name[0] == 'R' || name == "Completing"@ || name == "Suspended"@);
        assert("Running"@[1] == 'u' && "Rejected"@[1] == 'e');
        assert("Completing"@.len() != "Completed"@.len());
    }
}

/// The numbers of the states are those of the protocol, and no other number is
/// a state's.
pub proof fn law_numbers_are_those_of_the_protocol(number: i32)
    ensures
        state_of_number(0) == Some(JobState::Pending),
        state_of_number(1) == Some(JobState::Running),
        state_of_number(2) == Some(JobState::Completing),
        state_of_number(3) == Some(JobState::Completed),
        state_of_number(4) == Some(JobState::Failed),
        state_of_number(5) == Some(JobState::Cancelled),
        state_of_number(6) == Some(JobState::Timeout),
        state_of_number(7) == Some(JobState::NodeFail),
        state_of_number(8) == Some(JobState::Preempted),
        state_of_number(9) == Some(JobState::Suspended),
        state_of_number(10) == Some(JobState::Deadline),
        state_of_number(11) == Some(JobState::OutOfMemory),
        state_of_number(number) is Some <==> 0 <= number <= 11,
        !(0 <= number <= 11) ==> name_of_number(number) == "Unknown"@,
{
    law_state_numbers_round_trip(JobState::Pending);
    law_state_numbers_round_trip(JobState::Running);
    law_state_numbers_round_trip(JobState::Completing);
    law_state_numbers_round_trip(JobState::Completed);
    law_state_numbers_round_trip(JobState::Failed);
    law_state_numbers_round_trip(JobState::Cancelled);
    law_state_numbers_round_trip(JobState::Timeout);
    law_state_numbers_round_trip(JobState::NodeFail);
    law_state_numbers_round_trip(JobState::Preempted);
    law_state_numbers_round_trip(JobState::Suspended);
    law_state_numbers_round_trip(JobState::Deadline);
    law_state_numbers_round_trip(JobState::OutOfMemory);
    assert forall|state: JobState| 0 <= #[trigger] wire_number(state) <= 11 by {};
}

/// A job is over in the seven states from which none leads on; one that waits,
/// runs, is being wound up, or was set aside is not.
pub proof fn law_final_states_are_seven(state: JobState)
    ensures
        state_is_final(state) <==> !(state is Pending || state is Running || state is Completing
            || state is Preempted || state is Suspended),
{
}

/// A run completed exactly where its exit code is zero; any other failed.
pub proof fn law_zero_alone_is_success(exit_code: i32)
    ensures
        completion_state(exit_code) is Completed <==> exit_code == 0,
        completion_state(exit_code) is Failed <==> exit_code != 0,
        state_is_final(completion_state(exit_code)),
{
}

} // verus!
