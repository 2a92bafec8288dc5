//! What can go wrong.

use vstd::prelude::*;

verus! {

/// Why a request to a session failed.
#[derive(Debug)]
pub enum Error {
    /// No adapter of that name is configured; `searched` lists the executables looked for.
    AdapterNotFound { name: String, searched: Vec<String> },
    /// The adapter closed its end of the connection.
    AdapterCrashed,
    /// The debuggee did not stop within that many seconds.
    AwaitTimeout(u64),
    /// No breakpoint has that number.
    BreakpointNotFound { id: u32 },
    /// The stack has no frame at that index.
    FrameNotFound(usize),
    /// The debuggee has exited with that code.
    ProgramExited(i32),
    /// The session is in a state in which the action makes no sense.
    InvalidState { action: String, state: String },
    /// The connection failed or the adapter refused a request.
    Request(String),
    /// Something that should not happen did.
    Internal(String),
}

/// The contents of an [`Error`].
#[verifier::ext_equal]
pub enum ErrorView {
    AdapterNotFound { name: Seq<char>, searched: Seq<String> },
    AdapterCrashed,
    AwaitTimeout(u64),
    BreakpointNotFound { id: u32 },
    FrameNotFound(usize),
    ProgramExited(i32),
    InvalidState { action: Seq<char>, state: Seq<char> },
    Request(Seq<char>),
    Internal(Seq<char>),
}

impl View for Error {
    type V = ErrorView;

    open spec fn view(&self) -> ErrorView {
        match self {
            Error::AdapterNotFound { name, searched } => ErrorView::AdapterNotFound {
                name: name@,
                searched: searched@,
            },
            Error::AdapterCrashed => ErrorView::AdapterCrashed,
            Error::AwaitTimeout(secs) => ErrorView::AwaitTimeout(*secs),
            Error::BreakpointNotFound { id } => ErrorView::BreakpointNotFound { id: *id },
            Error::FrameNotFound(index) => ErrorView::FrameNotFound(*index),
            Error::ProgramExited(code) => ErrorView::ProgramExited(*code),
            Error::InvalidState { action, state } => ErrorView::InvalidState {
                action: action@,
                state: state@,
            },
            Error::Request(message) => ErrorView::Request(message@),
            Error::Internal(message) => ErrorView::Internal(message@),
        }
    }
}

impl Error {
    /// The refusal of `action` in the state named `state`.
    pub fn invalid_state(action: &str, state: &str) -> (error: Error)
        ensures
            error@ == (ErrorView::InvalidState { action: action@, state: state@ }),
    {
        Error::InvalidState { action: action.to_string(), state: state.to_string() }
    }

    /// The failure that `message` describes.
    pub fn internal(message: &str) -> (error: Error)
        ensures
            error@ == ErrorView::Internal(message@),
    {
        Error::Internal(message.to_string())
    }
}

/// A result whose value is looked at as it is and whose error by its contents.
pub open spec fn result_view<T>(result: Result<T, Error>) -> Result<T, ErrorView> {
    match result {
        Ok(value) => Ok(value),
        Err(error) => Err(error@),
    }
}

/// A result whose list is looked at as a sequence and whose error by its contents.
pub open spec fn list_view<T>(result: Result<Vec<T>, Error>) -> Result<Seq<T>, ErrorView> {
    match result {
        Ok(list) => Ok(list@),
        Err(error) => Err(error@),
    }
}

} // verus!
