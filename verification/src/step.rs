//! What a session wants done next. A request of the user turns into a [`Step`]; whoever drives
//! the session performs it and hands the outcome back together with the step's continuation.

use crate::breakpoints::BreakpointInfo;
use crate::error::Error;
use crate::paths::SourcePath;
use crate::protocol::{
    EvaluateResponseBody, Event, FunctionBreakpoint, Scope, SourceBreakpoint, StackFrame, Thread,
    Variable,
};
use vstd::prelude::*;

verus! {

/// A way to let a stopped debuggee run.
#[derive(Debug, Clone, Copy, PartialEq, Eq, Structural)]
pub enum Motion {
    Continue,
    Next,
    StepIn,
    StepOut,
}

/// A request that the adapter answers with a bare acknowledgement.
#[derive(Debug, Clone, Copy, PartialEq, Eq, Structural)]
pub enum Control {
    Continue { thread_id: i64 },
    Next { thread_id: i64 },
    StepIn { thread_id: i64 },
    StepOut { thread_id: i64 },
    Pause { thread_id: i64 },
    Disconnect { terminate_debuggee: bool },
    Terminate,
    Restart { no_debug: bool },
}

/// What an acknowledgement is for.
#[derive(Debug, Clone, Copy, PartialEq, Eq, Structural)]
pub enum AfterControl {
    Resumed(Motion),
    Paused,
    Detached,
    Disconnected,
    Terminated,
    Restarted,
}

/// What a frame is wanted for.
#[derive(Debug)]
pub enum FrameUse {
    Scopes { locals: bool },
    Evaluate { expression: String, context: String },
}

/// The contents of a [`FrameUse`].
#[verifier::ext_equal]
pub enum FrameUseView {
    Scopes { locals: bool },
    Evaluate { expression: Seq<char>, context: Seq<char> },
}

impl View for FrameUse {
    type V = FrameUseView;

    open spec fn view(&self) -> FrameUseView {
        match self {
            FrameUse::Scopes { locals } => FrameUseView::Scopes { locals: *locals },
            FrameUse::Evaluate { expression, context } => FrameUseView::Evaluate {
                expression: expression@,
                context: context@,
            },
        }
    }
}

/// What a thread is wanted for.
#[derive(Debug)]
pub enum ThreadUse {
    Resume(Motion),
    Pause,
    StackTrace { levels: i64 },
    SelectFrame { index: usize, levels: i64 },
    TopFrame(FrameUse),
}

/// The contents of a [`ThreadUse`].
#[verifier::ext_equal]
pub enum ThreadUseView {
    Resume(Motion),
    Pause,
    StackTrace { levels: i64 },
    SelectFrame { index: usize, levels: i64 },
    TopFrame(FrameUseView),
}

impl View for ThreadUse {
    type V = ThreadUseView;

    open spec fn view(&self) -> ThreadUseView {
        match self {
            ThreadUse::Resume(motion) => ThreadUseView::Resume(*motion),
            ThreadUse::Pause => ThreadUseView::Pause,
            ThreadUse::StackTrace { levels } => ThreadUseView::StackTrace { levels: *levels },
            ThreadUse::SelectFrame { index, levels } => ThreadUseView::SelectFrame {
                index: *index,
                levels: *levels,
            },
            ThreadUse::TopFrame(purpose) => ThreadUseView::TopFrame(purpose@),
        }
    }
}

/// What a list of threads is for.
#[derive(Debug)]
pub enum AfterThreads {
    Refresh,
    Use(ThreadUse),
}

/// The contents of an [`AfterThreads`].
#[verifier::ext_equal]
pub enum AfterThreadsView {
    Refresh,
    Use(ThreadUseView),
}

impl View for AfterThreads {
    type V = AfterThreadsView;

    open spec fn view(&self) -> AfterThreadsView {
        match self {
            AfterThreads::Refresh => AfterThreadsView::Refresh,
            AfterThreads::Use(purpose) => AfterThreadsView::Use(purpose@),
        }
    }
}

/// What a stack trace is for.
#[derive(Debug)]
pub enum AfterFrames {
    StackTrace,
    SelectFrame { index: usize },
    TopFrame(FrameUse),
}

/// The contents of an [`AfterFrames`].
#[verifier::ext_equal]
pub enum AfterFramesView {
    StackTrace,
    SelectFrame { index: usize },
    TopFrame(FrameUseView),
}

impl View for AfterFrames {
    type V = AfterFramesView;

    open spec fn view(&self) -> AfterFramesView {
        match self {
            AfterFrames::StackTrace => AfterFramesView::StackTrace,
            AfterFrames::SelectFrame { index } => AfterFramesView::SelectFrame { index: *index },
            AfterFrames::TopFrame(purpose) => AfterFramesView::TopFrame(purpose@),
        }
    }
}

/// What an answer on breakpoints is for. A `file` is that of the line breakpoints asked for, and
/// `None` where function breakpoints were.
#[derive(Debug)]
pub enum AfterBreakpoints {
    Added { id: u32, file: Option<SourcePath> },
    Switched { file: Option<SourcePath> },
    Removed,
    /// One file's breakpoints are gone; those of `rest` follow.
    ClearedFile { rest: Vec<SourcePath> },
    ClearedFunctions,
}

/// The contents of an [`AfterBreakpoints`].
#[verifier::ext_equal]
pub enum AfterBreakpointsView {
    Added { id: u32, file: Option<SourcePath> },
    Switched { file: Option<SourcePath> },
    Removed,
    ClearedFile { rest: Seq<SourcePath> },
    ClearedFunctions,
}

impl View for AfterBreakpoints {
    type V = AfterBreakpointsView;

    open spec fn view(&self) -> AfterBreakpointsView {
        match self {
            AfterBreakpoints::Added { id, file } => AfterBreakpointsView::Added {
                id: *id,
                file: *file,
            },
            AfterBreakpoints::Switched { file } => AfterBreakpointsView::Switched { file: *file },
            AfterBreakpoints::Removed => AfterBreakpointsView::Removed,
            AfterBreakpoints::ClearedFile { rest } => AfterBreakpointsView::ClearedFile {
                rest: rest@,
            },
            AfterBreakpoints::ClearedFunctions => AfterBreakpointsView::ClearedFunctions,
        }
    }
}

/// What a request of the user comes to.
#[derive(Debug)]
pub enum Outcome {
    Unit,
    Info(BreakpointInfo),
    Frames(Vec<StackFrame>),
    Frame(StackFrame),
    Threads(Vec<Thread>),
    Scopes(Vec<Scope>),
    Variables(Vec<Variable>),
    Evaluation(EvaluateResponseBody),
}

/// The contents of an [`Outcome`].
#[verifier::ext_equal]
pub enum OutcomeView {
    Unit,
    Info(BreakpointInfo),
    Frames(Seq<StackFrame>),
    Frame(StackFrame),
    Threads(Seq<Thread>),
    Scopes(Seq<Scope>),
    Variables(Seq<Variable>),
    Evaluation(EvaluateResponseBody),
}

impl View for Outcome {
    type V = OutcomeView;

    open spec fn view(&self) -> OutcomeView {
        match self {
            Outcome::Unit => OutcomeView::Unit,
            Outcome::Info(info) => OutcomeView::Info(*info),
            Outcome::Frames(frames) => OutcomeView::Frames(frames@),
            Outcome::Frame(frame) => OutcomeView::Frame(*frame),
            Outcome::Threads(threads) => OutcomeView::Threads(threads@),
            Outcome::Scopes(scopes) => OutcomeView::Scopes(scopes@),
            Outcome::Variables(variables) => OutcomeView::Variables(variables@),
            Outcome::Evaluation(body) => OutcomeView::Evaluation(*body),
        }
    }
}

/// What is to be done next.
#[derive(Debug)]
#[allow(inconsistent_fields)]
pub enum Step {
    /// Nothing: the request came to this.
    Done(Result<Outcome, Error>),
    /// Hand over the events that have arrived.
    Drain(Motion),
    /// Have the adapter set exactly these breakpoints in the file.
    SetBreakpoints {
        file: SourcePath,
        breakpoints: Vec<SourceBreakpoint>,
        after: AfterBreakpoints,
    },
    /// Have the adapter set exactly these function breakpoints.
    SetFunctionBreakpoints { breakpoints: Vec<FunctionBreakpoint>, after: AfterBreakpoints },
    /// Ask the adapter for the threads.
    Threads(AfterThreads),
    /// Ask the adapter for the innermost frames of a thread.
    StackTrace { thread_id: i64, levels: i64, after: AfterFrames },
    /// Ask the adapter for the scopes of a frame; `locals` where its local variables are wanted.
    Scopes { frame_id: i64, locals: bool },
    /// Ask the adapter for variables.
    Variables { reference: i64 },
    /// Have the adapter evaluate an expression.
    Evaluate { expression: String, frame_id: Option<i64>, context: String },
    /// Send a request that is only acknowledged.
    Control { request: Control, after: AfterControl },
    /// Wait until the debuggee has settled.
    Settle,
}

/// The contents of a [`Step`].
#[verifier::ext_equal]
#[allow(inconsistent_fields)]
pub enum StepView {
    Done(Result<OutcomeView, crate::error::ErrorView>),
    Drain(Motion),
    SetBreakpoints {
        file: SourcePath,
        breakpoints: Seq<crate::protocol::SourceBreakpointView>,
        after: AfterBreakpointsView,
    },
    SetFunctionBreakpoints {
        breakpoints: Seq<crate::protocol::FunctionBreakpointView>,
        after: AfterBreakpointsView,
    },
    Threads(AfterThreadsView),
    StackTrace { thread_id: i64, levels: i64, after: AfterFramesView },
    Scopes { frame_id: i64, locals: bool },
    Variables { reference: i64 },
    Evaluate { expression: Seq<char>, frame_id: Option<i64>, context: Seq<char> },
    Control { request: Control, after: AfterControl },
    Settle,
}

impl View for Step {
    type V = StepView;

    open spec fn view(&self) -> StepView {
        match self {
            Step::Done(Ok(outcome)) => StepView::Done(Ok(outcome@)),
            Step::Done(Err(error)) => StepView::Done(Err(error@)),
            Step::Drain(motion) => StepView::Drain(*motion),
            Step::SetBreakpoints { file, breakpoints, after } => StepView::SetBreakpoints {
                file: *file,
                breakpoints: crate::protocol::source_views(breakpoints@),
                after: after@,
            },
            Step::SetFunctionBreakpoints {
                breakpoints,
                after,
            } => StepView::SetFunctionBreakpoints {
                breakpoints: crate::protocol::function_views(breakpoints@),
                after: after@,
            },
            Step::Threads(after) => StepView::Threads(after@),
            Step::StackTrace { thread_id, levels, after } => StepView::StackTrace {
                thread_id: *thread_id,
                levels: *levels,
                after: after@,
            },
            Step::Scopes { frame_id, locals } => StepView::Scopes {
                frame_id: *frame_id,
                locals: *locals,
            },
            Step::Variables { reference } => StepView::Variables { reference: *reference },
            Step::Evaluate { expression, frame_id, context } => StepView::Evaluate {
                expression: expression@,
                frame_id: *frame_id,
                context: context@,
            },
            Step::Control { request, after } => StepView::Control {
                request: *request,
                after: *after,
            },
            Step::Settle => StepView::Settle,
        }
    }
}

/// What came of waiting for an event.
#[derive(Debug)]
pub enum Received {
    /// An event arrived.
    Event(Event),
    /// The adapter closed its end of the connection.
    Closed,
    /// The time was up.
    TimedOut,
}

} // verus!
