//! The outcome of a refused request.

use vstd::prelude::*;

verus! {

/// What kind of refusal a request met.
#[derive(Clone, Copy, Debug, PartialEq, Eq, Structural)]
pub enum Code {
    Cancelled,
    Unknown,
    InvalidArgument,
    DeadlineExceeded,
    NotFound,
    AlreadyExists,
    PermissionDenied,
    ResourceExhausted,
    FailedPrecondition,
    Aborted,
    OutOfRange,
    Unimplemented,
    Internal,
    Unavailable,
    DataLoss,
    Unauthenticated,
}

/// A refused request: a code and a message.
#[derive(Clone, Debug, PartialEq, Eq)]
pub struct Status {
    pub code: Code,
    pub message: String,
}

/// What a [`Status`] holds.
#[verifier::ext_equal]
pub struct StatusView {
    pub code: Code,
    pub message: Seq<char>,
}

impl View for Status {
    type V = StatusView;

    open spec fn view(&self) -> StatusView {
        StatusView { code: self.code, message: self.message@ }
    }
}

/// The refusal with this code and message.
pub open spec fn refusal(code: Code, message: Seq<char>) -> StatusView {
    StatusView { code, message }
}

impl Status {
    /// The refusal with this code and message.
    pub fn new(code: Code, message: &str) -> (out: Self)
        ensures
            out@ == refusal(code, message@),
    {
        Status { code, message: message.to_owned() }
    }
}

/// The value of an outcome, by its view, or the refusal.
pub open spec fn outcome_view<T: View>(outcome: Result<T, Status>) -> Result<T::V, StatusView> {
    match outcome {
        Ok(value) => Ok(value@),
        Err(status) => Err(status@),
    }
}

} // verus!
