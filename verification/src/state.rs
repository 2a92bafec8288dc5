//! The state of a session, and what requests, answers and events make of it.

use crate::breakpoints::BreakpointLocation;
use crate::error::ErrorView;
use crate::paths::SourcePath;
use crate::protocol::{Breakpoint, Capabilities, Event, Scope, StackFrame, Thread};
use crate::step::{
    AfterBreakpointsView, AfterControl, AfterFramesView, AfterThreadsView, Control, FrameUseView,
    Motion, OutcomeView, Received, StepView, ThreadUseView,
};
use vstd::prelude::*;

verus! {

/// Debug session state
#[derive(Debug, Clone, Copy, PartialEq, Eq, Structural)]
pub enum SessionState {
    /// No active session
    Idle,
    /// DAP adapter starting
    Initializing,
    /// Setting initial breakpoints
    Configuring,
    /// Program is running
    Running,
    /// Program has stopped (breakpoint, step, exception)
    Stopped,
    /// Program has exited
    Exited,
    /// Session is terminating
    Terminating,
}

impl SessionState {
    /// The name under which the state is shown.
    pub open spec fn name(self) -> Seq<char> {
        match self {
            SessionState::Idle => "idle"@,
            SessionState::Initializing => "initializing"@,
            SessionState::Configuring => "configuring"@,
            SessionState::Running => "running"@,
            SessionState::Stopped => "stopped"@,
            SessionState::Exited => "exited"@,
            SessionState::Terminating => "terminating"@,
        }
    }

    /// The name under which the state is shown.
    pub fn to_string(&self) -> (name: String)
        ensures
            name@ == self.name(),
    {
        match self {
            SessionState::Idle => "idle".to_string(),
            SessionState::Initializing => "initializing".to_string(),
            SessionState::Configuring => "configuring".to_string(),
            SessionState::Running => "running".to_string(),
            SessionState::Stopped => "stopped".to_string(),
            SessionState::Exited => "exited".to_string(),
            SessionState::Terminating => "terminating".to_string(),
        }
    }
}

/// How long a session waits for the debuggee to settle.
pub const SETTLE_MILLIS: u64 = 150;

/// How many frames are asked for at least when one of them is to be selected.
pub const FRAMES_FETCHED: usize = 20;

/// The first of `threads`.
pub open spec fn first_thread(threads: Seq<Thread>) -> Option<i64> {
    if threads.len() == 0 {
        None
    } else {
        Some(threads[0].id)
    }
}

/// The first of `frames`.
pub open spec fn first_frame(frames: Seq<StackFrame>) -> Option<i64> {
    if frames.len() == 0 {
        None
    } else {
        Some(frames[0].id)
    }
}

/// Whether one of `threads` has the number `id`.
pub open spec fn has_thread(threads: Seq<Thread>, id: i64) -> bool {
    exists|i: int| 0 <= i < threads.len() && #[trigger] threads[i].id == id
}

/// `threads` without the thread `id`.
pub open spec fn other_threads(threads: Seq<Thread>, id: i64) -> Seq<Thread> {
    threads.filter(|thread: Thread| thread.id != id)
}

/// Whether a scope is by its name that of the local variables.
pub open spec fn holds_locals(scope: Scope) -> bool {
    scope.name@ == "Locals"@ || scope.name@ == "Local"@
}

/// The place of the first of `scopes` that holds the local variables by its name; the length of
/// `scopes` where none does.
pub open spec fn first_locals(scopes: Seq<Scope>) -> int
    decreases scopes.len(),
{
    if scopes.len() == 0 || holds_locals(scopes[0]) {
        0
    } else {
        1 + first_locals(scopes.drop_first())
    }
}

/// The scope whose variables are taken for the local ones: the first that is named so, else the
/// first of all.
pub open spec fn locals_scope(scopes: Seq<Scope>) -> Option<i64> {
    let i = first_locals(scopes);
    if i < scopes.len() {
        Some(scopes[i].variables_reference)
    } else if scopes.len() > 0 {
        Some(scopes[0].variables_reference)
    } else {
        None
    }
}

/// How many frames are asked for so that the one at `index` is among them.
pub open spec fn levels_for(index: usize) -> i64 {
    if index + 1 > FRAMES_FETCHED {
        ((index + 1) as usize) as i64
    } else {
        FRAMES_FETCHED as i64
    }
}

/// The request that lets a thread run.
pub open spec fn motion_request(motion: Motion, thread_id: i64) -> Control {
    match motion {
        Motion::Continue => Control::Continue { thread_id },
        Motion::Next => Control::Next { thread_id },
        Motion::StepIn => Control::StepIn { thread_id },
        Motion::StepOut => Control::StepOut { thread_id },
    }
}

/// What a known thread is asked for.
pub open spec fn thread_step(purpose: ThreadUseView, thread_id: i64) -> StepView {
    match purpose {
        ThreadUseView::Resume(motion) => StepView::Control {
            request: motion_request(motion, thread_id),
            after: AfterControl::Resumed(motion),
        },
        ThreadUseView::Pause => StepView::Control {
            request: Control::Pause { thread_id },
            after: AfterControl::Paused,
        },
        ThreadUseView::StackTrace { levels } => StepView::StackTrace {
            thread_id,
            levels,
            after: AfterFramesView::StackTrace,
        },
        ThreadUseView::SelectFrame { index, levels } => StepView::StackTrace {
            thread_id,
            levels,
            after: AfterFramesView::SelectFrame { index },
        },
        ThreadUseView::TopFrame(frame_use) => StepView::StackTrace {
            thread_id,
            levels: 1,
            after: AfterFramesView::TopFrame(frame_use),
        },
    }
}

/// What a frame is asked for. Scopes are those of some frame; an expression can do without one.
pub open spec fn frame_step(purpose: FrameUseView, frame_id: Option<i64>) -> StepView {
    match (purpose, frame_id) {
        (FrameUseView::Scopes { locals }, Some(id)) => StepView::Scopes { frame_id: id, locals },
        (FrameUseView::Scopes { .. }, None) => StepView::Done(
            Err(ErrorView::Internal("No stack frames available"@)),
        ),
        (FrameUseView::Evaluate { expression, context }, _) => StepView::Evaluate {
            expression,
            frame_id,
            context,
        },
    }
}

/// A request that is refused.
pub open spec fn refused(error: ErrorView) -> StepView {
    StepView::Done(Err(error))
}

/// A request that comes to `outcome`.
pub open spec fn done(outcome: OutcomeView) -> StepView {
    StepView::Done(Ok(outcome))
}

/// What waiting for a stop comes to: `Some` where it is over.
pub open spec fn stop_verdict(timeout_secs: u64, received: Received) -> Option<
    Result<Event, ErrorView>,
> {
    match received {
        Received::Event(event) => if event.ends_wait() {
            Some(Ok(event))
        } else {
            None
        },
        Received::Closed => Some(Err(ErrorView::AdapterCrashed)),
        Received::TimedOut => Some(Err(ErrorView::AwaitTimeout(timeout_secs))),
    }
}

/// What waiting for the debuggee to settle comes to: `Some` where it is over.
pub open spec fn settle_verdict(received: Received) -> Option<Result<(), ErrorView>> {
    match received {
        Received::Event(event) => if event.ends_wait() {
            Some(Ok(()))
        } else {
            None
        },
        Received::Closed => Some(Err(ErrorView::AdapterCrashed)),
        Received::TimedOut => Some(Ok(())),
    }
}

/// The state of a session.
#[verifier::ext_equal]
pub struct SessionView {
    pub state: SessionState,
    pub capabilities: Capabilities,
    pub program: Seq<char>,
    pub args: Seq<String>,
    pub adapter_name: Seq<char>,
    pub launched: bool,
    pub breakpoints: crate::breakpoints::TableView,
    pub threads: Seq<Thread>,
    pub selected_thread: Option<i64>,
    pub stopped_thread: Option<i64>,
    pub stopped_reason: Option<Seq<char>>,
    pub hit_breakpoints: Seq<u32>,
    pub current_frame_index: usize,
    pub current_frame: Option<i64>,
    pub cached_frames: Seq<StackFrame>,
    pub output: crate::output::OutputView,
    pub exit_code: Option<i32>,
    pub request_timeout_secs: u64,
}

impl SessionView {
    /// The session at the top of the stack, with nothing known of it.
    pub open spec fn at_top(self) -> SessionView {
        SessionView {
            current_frame: None,
            current_frame_index: 0,
            cached_frames: Seq::empty(),
            ..self
        }
    }

    /// Why a request that needs a stopped debuggee is refused; `None` where it is not.
    pub open spec fn not_stopped(self) -> Option<ErrorView> {
        match self.state {
            SessionState::Stopped => None,
            SessionState::Exited => Some(
                ErrorView::ProgramExited(
                    match self.exit_code {
                        Some(code) => code,
                        None => 0,
                    },
                ),
            ),
            _ => Some(ErrorView::InvalidState { action: "inspect"@, state: self.state.name() }),
        }
    }

    /// The thread that requests are about, as far as it is known without asking: the selected
    /// one, else the stopped one, else the first.
    pub open spec fn known_thread(self) -> Option<i64> {
        if self.selected_thread is Some {
            self.selected_thread
        } else if self.stopped_thread is Some {
            self.stopped_thread
        } else {
            first_thread(self.threads)
        }
    }

    /// What a request on a thread comes to. The threads are asked for where none is known.
    pub open spec fn with_thread(self, purpose: ThreadUseView) -> StepView {
        match self.known_thread() {
            Some(id) => thread_step(purpose, id),
            None => StepView::Threads(AfterThreadsView::Use(purpose)),
        }
    }

    /// What a request on the frame `frame_id`, or else the current one, comes to. The innermost
    /// frame is asked for where there is no current one.
    pub open spec fn with_frame(self, purpose: FrameUseView, frame_id: Option<i64>) -> StepView {
        if frame_id is Some {
            frame_step(purpose, frame_id)
        } else if self.current_frame is Some {
            frame_step(purpose, self.current_frame)
        } else {
            self.with_thread(ThreadUseView::TopFrame(purpose))
        }
    }

    /// `step` where the debuggee has stopped, else the refusal.
    pub open spec fn if_stopped(self, step: StepView) -> StepView {
        match self.not_stopped() {
            Some(error) => refused(error),
            None => step,
        }
    }

    /// The session after a report on a breakpoint. A report without a file or a line is passed
    /// over.
    pub open spec fn after_report(self, report: Breakpoint) -> SessionView {
        match (report.source, report.line) {
            (Some(source), Some(line)) => match source.path {
                Some(path) => SessionView {
                    breakpoints: self.breakpoints.with_report(
                        crate::paths::path_key(path@),
                        line,
                        report,
                    ),
                    ..self
                },
                None => self,
            },
            _ => self,
        }
    }

    /// The session after an event that arrived at `now`.
    pub open spec fn after_event(self, event: Event, now: std::time::Instant) -> SessionView {
        match event {
            Event::Stopped(body) => SessionView {
                state: SessionState::Stopped,
                stopped_thread: body.thread_id,
                stopped_reason: Some(body.reason@),
                hit_breakpoints: body.hit_breakpoint_ids@,
                ..self.at_top()
            },
            Event::Continued { .. } => SessionView {
                state: SessionState::Running,
                stopped_thread: None,
                stopped_reason: None,
                hit_breakpoints: Seq::empty(),
                ..self.at_top()
            },
            Event::Exited(body) => SessionView {
                state: SessionState::Exited,
                exit_code: Some(body.exit_code),
                ..self
            },
            Event::Terminated(_) => SessionView { state: SessionState::Exited, ..self },
            Event::Output(body) => SessionView {
                output: self.output.with_output(
                    match body.category {
                        Some(category) => category@,
                        None => "console"@,
                    },
                    body.output@,
                    now,
                ),
                ..self
            },
            Event::Thread(body) => if body.reason@ == "exited"@ {
                SessionView {
                    threads: other_threads(self.threads, body.thread_id),
                    selected_thread: if self.selected_thread == Some(body.thread_id) {
                        None
                    } else {
                        self.selected_thread
                    },
                    ..self
                }
            } else {
                self
            },
            Event::Breakpoint { breakpoint, .. } => if breakpoint.id is Some {
                self.after_report(breakpoint)
            } else {
                self
            },
            _ => self,
        }
    }

    /// The session after events that arrived one by one at the given times.
    pub open spec fn after_events(
        self,
        events: Seq<Event>,
        times: Seq<std::time::Instant>,
    ) -> SessionView
        decreases events.len(),
    {
        if events.len() == 0 {
            self
        } else {
            self.after_events(events.drop_last(), times.drop_last()).after_event(
                events.last(),
                times.last(),
            )
        }
    }

    /// Whether `next` is the session after `events`, whenever they arrived.
    pub open spec fn comes_to(self, events: Seq<Event>, next: SessionView) -> bool {
        exists|times: Seq<std::time::Instant>|
            times.len() == events.len() && next == #[trigger] self.after_events(events, times)
    }

    /// The session after what came of waiting at `now`.
    pub open spec fn after_received(
        self,
        received: Received,
        now: std::time::Instant,
    ) -> SessionView {
        match received {
            Received::Event(event) => self.after_event(event, now),
            _ => self,
        }
    }

    /// A breakpoint is added, and the adapter is asked to set it together with the others of its
    /// file, or with the other function breakpoints.
    pub open spec fn add_breakpoint(
        self,
        location: BreakpointLocation,
        condition: Option<String>,
        hit_count: Option<u32>,
    ) -> (SessionView, StepView) {
        let id = self.breakpoints.next_id;
        let breakpoints = self.breakpoints.with_breakpoint(location, condition, hit_count);
        let file = match location {
            BreakpointLocation::Line { file, .. } => Some(file),
            BreakpointLocation::Function { .. } => None,
        };
        let next = SessionView { breakpoints, ..self };
        (next, next.resend(file, AfterBreakpointsView::Added { id, file }))
    }

    /// The request for the enabled breakpoints of a file, or for the enabled function
    /// breakpoints.
    pub open spec fn resend(
        self,
        file: Option<SourcePath>,
        after: AfterBreakpointsView,
    ) -> StepView {
        match file {
            Some(file) => StepView::SetBreakpoints {
                file,
                breakpoints: crate::breakpoints::line_requests(
                    self.breakpoints.breakpoints_of(file.key@),
                ),
                after,
            },
            None => StepView::SetFunctionBreakpoints {
                breakpoints: crate::breakpoints::function_requests(self.breakpoints.functions),
                after,
            },
        }
    }

    /// A breakpoint is taken out, and the adapter is asked to set those that are left.
    pub open spec fn remove_breakpoint(self, id: u32) -> (SessionView, StepView) {
        if self.breakpoints.has(id) {
            let next = SessionView { breakpoints: self.breakpoints.without(id), ..self };
            (next, next.resend(self.breakpoints.file_of(id), AfterBreakpointsView::Removed))
        } else {
            (self, refused(ErrorView::BreakpointNotFound { id }))
        }
    }

    /// A breakpoint is switched on or off, and the adapter is asked to set those that are on.
    pub open spec fn set_breakpoint_enabled(self, id: u32, enabled: bool) -> (
        SessionView,
        StepView,
    ) {
        if self.breakpoints.has(id) {
            let file = self.breakpoints.file_of(id);
            let next = SessionView {
                breakpoints: self.breakpoints.with_switched(id, enabled),
                ..self
            };
            (next, next.resend(file, AfterBreakpointsView::Switched { file }))
        } else {
            (self, refused(ErrorView::BreakpointNotFound { id }))
        }
    }

    /// The adapter is asked to drop the breakpoints of `files` one by one. When it has, all line
    /// breakpoints are forgotten and it is asked to drop the function breakpoints.
    pub open spec fn clear_next(self, files: Seq<SourcePath>) -> (SessionView, StepView) {
        if files.len() > 0 {
            (
                self,
                StepView::SetBreakpoints {
                    file: files[0],
                    breakpoints: Seq::empty(),
                    after: AfterBreakpointsView::ClearedFile { rest: files.drop_first() },
                },
            )
        } else {
            (
                SessionView {
                    breakpoints: crate::breakpoints::TableView {
                        files: Seq::empty(),
                        ..self.breakpoints
                    },
                    ..self
                },
                StepView::SetFunctionBreakpoints {
                    breakpoints: Seq::empty(),
                    after: AfterBreakpointsView::ClearedFunctions,
                },
            )
        }
    }

    /// The adapter is asked to drop all breakpoints.
    pub open spec fn remove_all_breakpoints(self) -> (SessionView, StepView) {
        self.clear_next(
            self.breakpoints.files.map_values(|file: crate::breakpoints::FileView| file.path),
        )
    }

    /// The breakpoints with the adapter's answer on those of a file, or on those on functions.
    pub open spec fn with_answer(
        self,
        file: Option<SourcePath>,
        reports: Seq<Breakpoint>,
    ) -> SessionView {
        SessionView {
            breakpoints: match file {
                Some(file) => self.breakpoints.with_line_answer(file.key@, reports),
                None => self.breakpoints.with_function_answer(reports),
            },
            ..self
        }
    }

    /// The adapter answered a request for breakpoints.
    pub open spec fn breakpoints_received(
        self,
        after: AfterBreakpointsView,
        reply: Result<Seq<Breakpoint>, ErrorView>,
    ) -> (SessionView, StepView) {
        match reply {
            Err(error) => (self, refused(error)),
            Ok(reports) => match after {
                AfterBreakpointsView::Added { id, file } => {
                    let next = self.with_answer(file, reports);
                    (
                        next,
                        match next.breakpoints.lookup(id) {
                            Ok(info) => done(OutcomeView::Info(info)),
                            Err(error) => refused(error),
                        },
                    )
                },
                AfterBreakpointsView::Switched { file } => (
                    self.with_answer(file, reports),
                    done(OutcomeView::Unit),
                ),
                AfterBreakpointsView::Removed => (self, done(OutcomeView::Unit)),
                AfterBreakpointsView::ClearedFile { rest } => self.clear_next(rest),
                AfterBreakpointsView::ClearedFunctions => (
                    SessionView {
                        breakpoints: crate::breakpoints::TableView {
                            functions: Seq::empty(),
                            ..self.breakpoints
                        },
                        ..self
                    },
                    done(OutcomeView::Unit),
                ),
            },
        }
    }

    /// The debuggee is to run on. Events that have arrived are looked at first.
    pub open spec fn resume(self, motion: Motion) -> StepView {
        if motion is Continue && self.state is Running {
            done(OutcomeView::Unit)
        } else {
            self.if_stopped(StepView::Drain(motion))
        }
    }

    /// The debuggee is to be paused.
    pub open spec fn pause(self) -> StepView {
        if self.state is Running {
            self.with_thread(ThreadUseView::Pause)
        } else {
            refused(ErrorView::InvalidState { action: "pause"@, state: self.state.name() })
        }
    }

    /// The adapter answered a request for the threads.
    pub open spec fn threads_received(
        self,
        after: AfterThreadsView,
        reply: Result<Seq<Thread>, ErrorView>,
    ) -> (SessionView, StepView) {
        match reply {
            Err(error) => (self, refused(error)),
            Ok(threads) => (
                SessionView { threads, ..self },
                match after {
                    AfterThreadsView::Refresh => done(OutcomeView::Threads(threads)),
                    AfterThreadsView::Use(purpose) => match first_thread(threads) {
                        Some(id) => thread_step(purpose, id),
                        None => refused(ErrorView::Internal("No threads available"@)),
                    },
                },
            ),
        }
    }

    /// The frame at `index` of those at hand becomes the current one.
    pub open spec fn frame_selected(self, index: usize) -> (SessionView, StepView) {
        if index < self.cached_frames.len() {
            (
                SessionView {
                    current_frame_index: index,
                    current_frame: Some(self.cached_frames[index as int].id),
                    ..self
                },
                done(OutcomeView::Frame(self.cached_frames[index as int])),
            )
        } else {
            (self, refused(ErrorView::FrameNotFound(index)))
        }
    }

    /// The frame at `index` is to become the current one. Frames are asked for where those at
    /// hand do not reach that far.
    pub open spec fn select_frame(self, index: usize) -> (SessionView, StepView) {
        match self.not_stopped() {
            Some(error) => (self, refused(error)),
            None => if index < self.cached_frames.len() {
                self.frame_selected(index)
            } else {
                (
                    self,
                    self.with_thread(
                        ThreadUseView::SelectFrame { index, levels: levels_for(index) },
                    ),
                )
            },
        }
    }

    /// The frame of the caller is to become the current one.
    pub open spec fn frame_up(self) -> (SessionView, StepView) {
        self.select_frame((self.current_frame_index + 1) as usize)
    }

    /// The frame that the current one called is to become the current one.
    pub open spec fn frame_down(self) -> (SessionView, StepView) {
        if self.current_frame_index == 0 {
            (
                self,
                refused(
                    ErrorView::InvalidState {
                        action: "frame down"@,
                        state: "already at innermost frame"@,
                    },
                ),
            )
        } else {
            self.select_frame((self.current_frame_index - 1) as usize)
        }
    }

    /// The adapter answered a request for frames.
    pub open spec fn frames_received(
        self,
        after: AfterFramesView,
        reply: Result<Seq<StackFrame>, ErrorView>,
    ) -> (SessionView, StepView) {
        match reply {
            Err(error) => (self, refused(error)),
            Ok(frames) => {
                let topped = SessionView {
                    current_frame: if frames.len() > 0 {
                        first_frame(frames)
                    } else {
                        self.current_frame
                    },
                    ..self
                };
                match after {
                    AfterFramesView::StackTrace => (topped, done(OutcomeView::Frames(frames))),
                    AfterFramesView::SelectFrame { index } => SessionView {
                        cached_frames: frames,
                        ..self
                    }.frame_selected(index),
                    AfterFramesView::TopFrame(purpose) => (
                        topped,
                        frame_step(purpose, first_frame(frames)),
                    ),
                }
            },
        }
    }

    /// The adapter answered a request for scopes.
    pub open spec fn scopes_received(
        self,
        locals: bool,
        reply: Result<Seq<Scope>, ErrorView>,
    ) -> StepView {
        match reply {
            Err(error) => refused(error),
            Ok(scopes) => if locals {
                match locals_scope(scopes) {
                    Some(reference) => self.if_stopped(StepView::Variables { reference }),
                    None => done(OutcomeView::Variables(Seq::empty())),
                }
            } else {
                done(OutcomeView::Scopes(scopes))
            },
        }
    }

    /// The adapter acknowledged or refused a request.
    pub open spec fn control_acknowledged(
        self,
        after: AfterControl,
        reply: Result<(), ErrorView>,
    ) -> (SessionView, StepView) {
        match reply {
            Err(error) => (self, refused(error)),
            Ok(()) => match after {
                AfterControl::Resumed(Motion::Continue) => (
                    SessionView {
                        state: SessionState::Running,
                        stopped_thread: None,
                        stopped_reason: None,
                        ..self
                    },
                    done(OutcomeView::Unit),
                ),
                AfterControl::Resumed(_) => (
                    SessionView { state: SessionState::Running, ..self },
                    done(OutcomeView::Unit),
                ),
                AfterControl::Paused | AfterControl::Detached | AfterControl::Terminated => (
                    self,
                    done(OutcomeView::Unit),
                ),
                AfterControl::Disconnected => (
                    self,
                    StepView::Control {
                        request: Control::Terminate,
                        after: AfterControl::Terminated,
                    },
                ),
                AfterControl::Restarted => (
                    SessionView {
                        state: SessionState::Running,
                        stopped_thread: None,
                        stopped_reason: None,
                        ..self.at_top()
                    },
                    StepView::Settle,
                ),
            },
        }
    }

    /// The session is to end. The debuggee goes with it where the session had launched it and
    /// `stop` is set.
    pub open spec fn end(self, stop: bool) -> (SessionView, StepView) {
        (
            SessionView { state: SessionState::Terminating, ..self },
            StepView::Control {
                request: Control::Disconnect { terminate_debuggee: stop && self.launched },
                after: if stop {
                    AfterControl::Disconnected
                } else {
                    AfterControl::Detached
                },
            },
        )
    }

    /// A thread is to be the one that requests are about.
    pub open spec fn select_thread(self, thread_id: i64) -> (SessionView, Result<(), ErrorView>) {
        if has_thread(self.threads, thread_id) {
            (SessionView { selected_thread: Some(thread_id), ..self.at_top() }, Ok(()))
        } else {
            (
                self,
                Err(
                    ErrorView::Internal(
                        "Thread "@ + crate::text::signed_decimal(thread_id as int)
                            + " not found. Use 'threads' command to see available threads."@,
                    ),
                ),
            )
        }
    }
}

} // verus!
