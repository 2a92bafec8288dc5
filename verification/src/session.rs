//! A debug session: what is known of the debuggee, and what is asked of the adapter.

use crate::breakpoints::{BreakpointInfo, BreakpointLocation, BreakpointTable};
use crate::error::Error;
use crate::output::{OutputBuffer, OutputEvent};
use crate::paths::SourcePath;
use crate::protocol::{
    Breakpoint, Capabilities, EvaluateResponseBody, Event, FunctionBreakpoint, Scope,
    SourceBreakpoint, StackFrame, Thread, Variable,
};
use crate::setup::{Handshake, Plan};
use crate::state::{SessionState, SessionView};
use crate::step::{
    AfterBreakpoints, AfterControl, AfterFrames, AfterThreads, Control, FrameUse, Motion, Outcome,
    Received, Step, ThreadUse,
};
use vstd::prelude::*;

verus! {

/// Debug session managing the debuggee behind an adapter
#[derive(Debug)]
pub struct DebugSession {
    state: SessionState,
    capabilities: Capabilities,
    program: String,
    args: Vec<String>,
    adapter_name: String,
    launched: bool,
    breakpoints: BreakpointTable,
    threads: Vec<Thread>,
    selected_thread: Option<i64>,
    stopped_thread: Option<i64>,
    stopped_reason: Option<String>,
    hit_breakpoints: Vec<u32>,
    current_frame_index: usize,
    current_frame: Option<i64>,
    cached_frames: Vec<StackFrame>,
    output: OutputBuffer,
    exit_code: Option<i32>,
    request_timeout_secs: u64,
}

impl View for DebugSession {
    type V = SessionView;

    closed spec fn view(&self) -> SessionView {
        SessionView {
            state: self.state,
            capabilities: self.capabilities,
            program: self.program@,
            args: self.args@,
            adapter_name: self.adapter_name@,
            launched: self.launched,
            breakpoints: self.breakpoints@,
            threads: self.threads@,
            selected_thread: self.selected_thread,
            stopped_thread: self.stopped_thread,
            stopped_reason: crate::text::opt_text(self.stopped_reason),
            hit_breakpoints: self.hit_breakpoints@,
            current_frame_index: self.current_frame_index,
            current_frame: self.current_frame,
            cached_frames: self.cached_frames@,
            output: self.output@,
            exit_code: self.exit_code,
            request_timeout_secs: self.request_timeout_secs,
        }
    }
}

/// Whether one of `threads` has the number `id`.
fn knows_thread(threads: &Vec<Thread>, id: i64) -> (known: bool)
    ensures
        known == crate::state::has_thread(threads@, id),
{
    let mut i: usize = 0;
    while i < threads.len()
        invariant
            i <= threads@.len(),
            forall|k: int| 0 <= k < i ==> (#[trigger] threads@[k]).id != id,
        decreases threads@.len() - i,
    {
        if threads[i].id == id {
            assert(threads@[i as int].id == id);
            return true;
        }
        i = i + 1;
    }
    false
}

/// `threads` without the thread `id`.
fn retain_others(threads: &Vec<Thread>, id: i64) -> (others: Vec<Thread>)
    ensures
        others@ == crate::state::other_threads(threads@, id),
{
    let mut others: Vec<Thread> = Vec::new();
    let mut i: usize = 0;
    let ghost keep = |thread: Thread| thread.id != id;
    proof {
        reveal(Seq::filter);
        assert(threads@.take(0) =~= Seq::<Thread>::empty());
    }
    while i < threads.len()
        invariant
            i <= threads@.len(),
            keep == (|thread: Thread| thread.id != id),
            others@ == threads@.take(i as int).filter(keep),
        decreases threads@.len() - i,
    {
        proof {
            reveal(Seq::filter);
            let front = threads@.take(i + 1);
            assert(front.drop_last() =~= threads@.take(i as int));
        }
        if threads[i].id != id {
            others.push(threads[i].clone());
        }
        i = i + 1;
    }
    assert(threads@.take(i as int) =~= threads@);
    others
}

/// A copy of `threads`.
fn copy_threads(threads: &Vec<Thread>) -> (copy: Vec<Thread>)
    ensures
        copy@ == threads@,
{
    let mut copy: Vec<Thread> = Vec::new();
    let mut i: usize = 0;
    while i < threads.len()
        invariant
            i <= threads@.len(),
            copy@ == threads@.take(i as int),
        decreases threads@.len() - i,
    {
        copy.push(threads[i].clone());
        i = i + 1;
    }
    copy
}

/// A copy of `ids`.
fn copy_ids(ids: &Vec<u32>) -> (copy: Vec<u32>)
    ensures
        copy@ == ids@,
{
    let mut copy: Vec<u32> = Vec::new();
    let mut i: usize = 0;
    while i < ids.len()
        invariant
            i <= ids@.len(),
            copy@ == ids@.take(i as int),
        decreases ids@.len() - i,
    {
        copy.push(ids[i]);
        i = i + 1;
    }
    copy
}

/// The request that lets a thread run.
fn motion_request(motion: Motion, thread_id: i64) -> (request: Control)
    ensures
        request == crate::state::motion_request(motion, thread_id),
{
    match motion {
        Motion::Continue => Control::Continue { thread_id },
        Motion::Next => Control::Next { thread_id },
        Motion::StepIn => Control::StepIn { thread_id },
        Motion::StepOut => Control::StepOut { thread_id },
    }
}

/// What a known thread is asked for.
fn thread_step(purpose: ThreadUse, thread_id: i64) -> (step: Step)
    ensures
        step@ == crate::state::thread_step(purpose@, thread_id),
{
    match purpose {
        ThreadUse::Resume(motion) => Step::Control {
            request: motion_request(motion, thread_id),
            after: AfterControl::Resumed(motion),
        },
        ThreadUse::Pause => Step::Control {
            request: Control::Pause { thread_id },
            after: AfterControl::Paused,
        },
        ThreadUse::StackTrace { levels } => Step::StackTrace {
            thread_id,
            levels,
            after: AfterFrames::StackTrace,
        },
        ThreadUse::SelectFrame { index, levels } => Step::StackTrace {
            thread_id,
            levels,
            after: AfterFrames::SelectFrame { index },
        },
        ThreadUse::TopFrame(frame_use) => Step::StackTrace {
            thread_id,
            levels: 1,
            after: AfterFrames::TopFrame(frame_use),
        },
    }
}

/// What a frame is asked for.
fn frame_step(purpose: FrameUse, frame_id: Option<i64>) -> (step: Step)
    ensures
        step@ == crate::state::frame_step(purpose@, frame_id),
{
    match purpose {
        FrameUse::Scopes { locals } => match frame_id {
            Some(id) => Step::Scopes { frame_id: id, locals },
            None => Step::Done(Err(Error::internal("No stack frames available"))),
        },
        FrameUse::Evaluate { expression, context } => Step::Evaluate {
            expression,
            frame_id,
            context,
        },
    }
}

proof fn lemma_first_locals(scopes: Seq<Scope>, n: int)
    requires
        0 <= n <= scopes.len(),
        forall|k: int| 0 <= k < n ==> !crate::state::holds_locals(#[trigger] scopes[k]),
        n < scopes.len() ==> crate::state::holds_locals(scopes[n]),
    ensures
        crate::state::first_locals(scopes) == n,
    decreases n,
{
    if n > 0 {
        assert(!crate::state::holds_locals(scopes[0]));
        let rest = scopes.drop_first();
        assert forall|k: int| 0 <= k < n - 1 implies !crate::state::holds_locals(
            #[trigger] rest[k],
        ) by {
            assert(rest[k] == scopes[k + 1]);
        }
        lemma_first_locals(rest, n - 1);
    }
}

/// The scope whose variables are taken for the local ones.
fn choose_locals(scopes: &Vec<Scope>) -> (reference: Option<i64>)
    ensures
        reference == crate::state::locals_scope(scopes@),
{
    let mut i: usize = 0;
    while i < scopes.len()
        invariant
            i <= scopes@.len(),
            forall|k: int| 0 <= k < i ==> !crate::state::holds_locals(#[trigger] scopes@[k]),
        decreases scopes@.len() - i,
    {
        if crate::text::text_is(&scopes[i].name, "Locals") || crate::text::text_is(
            &scopes[i].name,
            "Local",
        ) {
            proof {
                lemma_first_locals(scopes@, i as int);
            }
            return Some(scopes[i].variables_reference);
        }
        i = i + 1;
    }
    proof {
        lemma_first_locals(scopes@, i as int);
    }
    if scopes.len() > 0 {
        Some(scopes[0].variables_reference)
    } else {
        None
    }
}

impl DebugSession {
    /// The breakpoints, the buffered output and the current frame are in order.
    pub closed spec fn wf(&self) -> bool {
        &&& self.breakpoints.wf()
        &&& self.output.wf()
        &&& self.current_frame_index < usize::MAX
    }

    /// What a well-formed session has to show for it.
    pub proof fn lemma_wf(&self)
        requires
            self.wf(),
        ensures
            self@.breakpoints.wf(),
            self@.output.within_limits(),
            self@.current_frame_index < usize::MAX,
    {
        self.output.lemma_wf_within_limits();
    }

    /// The session that a completed handshake leads to.
    pub(crate) fn opened(handshake: Handshake) -> (session: DebugSession)
        requires
            handshake.opening.max_bytes_mb * 1024 * 1024 <= usize::MAX,
        ensures
            session.wf(),
            session@ == handshake.session(),
    {
        let Handshake { opening, capabilities } = handshake;
        let (state, program, args, launched, stopped_reason) = match opening.plan {
            Plan::Launch { program, args, .. } => (
                SessionState::Running,
                program,
                args,
                true,
                None,
            ),
            Plan::Attach { pid } => {
                let mut program = "pid:".to_string();
                program.append(crate::text::decimal_text(pid as u64).as_str());
                (SessionState::Stopped, program, Vec::new(), false, Some("attach".to_string()))
            },
        };
        let session = DebugSession {
            state,
            capabilities,
            program,
            args,
            adapter_name: opening.adapter_name,
            launched,
            breakpoints: BreakpointTable::new(),
            threads: Vec::new(),
            selected_thread: None,
            stopped_thread: None,
            stopped_reason,
            hit_breakpoints: Vec::new(),
            current_frame_index: 0,
            current_frame: None,
            cached_frames: Vec::new(),
            output: OutputBuffer::new(opening.max_events, opening.max_bytes_mb * 1024 * 1024),
            exit_code: None,
            request_timeout_secs: opening.request_secs,
        };
        assert(session@ =~= handshake.session());
        session
    }

    /// Back to the top of the stack, with nothing known of it.
    fn forget_frames(&mut self)
        requires
            old(self).wf(),
        ensures
            final(self).wf(),
            final(self)@ == old(self)@.at_top(),
    {
        self.current_frame = None;
        self.current_frame_index = 0;
        self.cached_frames.clear();
        assert(self@ =~= old(self)@.at_top());
    }

    /// Takes note of a breakpoint's status, which the adapter reported of its own accord.
    pub fn update_breakpoint_from_event(&mut self, report: &Breakpoint)
        requires
            old(self).wf(),
        ensures
            final(self).wf(),
            final(self)@ == old(self)@.after_report(*report),
    {
        if let (Some(source), Some(line)) = (&report.source, report.line) {
            if let Some(path) = &source.path {
                let file = SourcePath::new(path.clone());
                self.breakpoints.take_report(&file, line, report);
            }
        }
        assert(self@ =~= old(self)@.after_report(*report));
    }

    /// Buffer output for later retrieval
    ///
    /// Enforces both limits. A single message that exceeds the byte limit is truncated.
    pub fn buffer_output(&mut self, category: &str, output: &str)
        requires
            old(self).wf(),
        ensures
            final(self).wf(),
            exists|now: std::time::Instant|
                final(self)@ == (SessionView {
                    output: #[trigger] old(self)@.output.with_output(category@, output@, now),
                    ..old(self)@
                }),
    {
        self.output.push(category, output);
        proof {
            let now = choose|now: std::time::Instant|
                self.output@ == #[trigger] old(self)@.output.with_output(category@, output@, now);
            assert(self@ =~= (SessionView {
                output: old(self)@.output.with_output(category@, output@, now),
                ..old(self)@
            }));
        }
    }

    /// Handle a single event
    pub fn handle_event(&mut self, event: &Event)
        requires
            old(self).wf(),
        ensures
            final(self).wf(),
            exists|now: std::time::Instant|
                final(self)@ == #[trigger] old(self)@.after_event(*event, now),
    {
        let now = crate::output::current_time();
        self.handle_event_at(event, now);
    }

    /// Handle a single event that arrived at `now`
    pub fn handle_event_at(&mut self, event: &Event, now: std::time::Instant)
        requires
            old(self).wf(),
        ensures
            final(self).wf(),
            final(self)@ == old(self)@.after_event(*event, now),
    {
        match event {
            Event::Stopped(body) => {
                self.forget_frames();
                self.state = SessionState::Stopped;
                self.stopped_thread = body.thread_id;
                self.stopped_reason = Some(body.reason.clone());
                self.hit_breakpoints = copy_ids(&body.hit_breakpoint_ids);
            },
            Event::Continued { .. } => {
                self.forget_frames();
                self.state = SessionState::Running;
                self.stopped_thread = None;
                self.stopped_reason = None;
                self.hit_breakpoints.clear();
            },
            Event::Exited(body) => {
                self.state = SessionState::Exited;
                self.exit_code = Some(body.exit_code);
            },
            Event::Terminated(_) => {
                self.state = SessionState::Exited;
            },
            Event::Output(body) => {
                match &body.category {
                    Some(category) => self.output.push_at(
                        category.as_str(),
                        body.output.as_str(),
                        now,
                    ),
                    None => self.output.push_at("console", body.output.as_str(), now),
                }
            },
            Event::Thread(body) => {
                if crate::text::text_is(&body.reason, "exited") {
                    self.threads = retain_others(&self.threads, body.thread_id);
                    if self.selected_thread == Some(body.thread_id) {
                        self.selected_thread = None;
                    }
                }
            },
            Event::Breakpoint { breakpoint, .. } => {
                if breakpoint.id.is_some() {
                    self.update_breakpoint_from_event(breakpoint);
                }
            },
            _ => {},
        }
        assert(self@ =~= old(self)@.after_event(*event, now));
    }

    /// Handles events that have arrived, one after the other.
    pub fn drain_pending_events(&mut self, events: &Vec<Event>)
        requires
            old(self).wf(),
        ensures
            final(self).wf(),
            old(self)@.comes_to(events@, final(self)@),
    {
        let ghost mut times: Seq<std::time::Instant> = Seq::empty();
        let mut i: usize = 0;
        while i < events.len()
            invariant
                i <= events@.len(),
                self.wf(),
                times.len() == i,
                self@ == old(self)@.after_events(events@.take(i as int), times),
            decreases events@.len() - i,
        {
            let ghost before = self@;
            self.handle_event(&events[i]);
            proof {
                let event = events@[i as int];
                let now = choose|now: std::time::Instant|
                    self@ == #[trigger] before.after_event(event, now);
                assert(events@.take(i + 1).drop_last() =~= events@.take(i as int));
                assert(times.push(now).drop_last() =~= times);
                times = times.push(now);
            }
            i = i + 1;
        }
        assert(events@.take(i as int) =~= events@);
    }

    /// Process pending events
    pub fn process_events(&mut self, events: Vec<Event>) -> (result: Result<Vec<Event>, Error>)
        requires
            old(self).wf(),
        ensures
            final(self).wf(),
            old(self)@.comes_to(events@, final(self)@),
            result == Ok::<Vec<Event>, Error>(events),
    {
        self.drain_pending_events(&events);
        Ok(events)
    }

    /// How long to wait on for a stop, in nanoseconds; an error where the time is up.
    pub fn stop_wait_left(timeout_secs: u64, elapsed_nanos: u128) -> (left: Result<u128, Error>)
        ensures
            crate::error::result_view(left) == if elapsed_nanos < timeout_secs * 1_000_000_000 {
                Ok((timeout_secs * 1_000_000_000 - elapsed_nanos) as u128)
            } else {
                Err(crate::error::ErrorView::AwaitTimeout(timeout_secs))
            },
    {
        let timeout: u128 = timeout_secs as u128 * 1_000_000_000;
        if elapsed_nanos < timeout {
            Ok(timeout - elapsed_nanos)
        } else {
            Err(Error::AwaitTimeout(timeout_secs))
        }
    }

    /// Wait for the program to stop
    ///
    /// Takes what came of one round of waiting. `None` asks for another round; the wait is over
    /// when the program has stopped, exited or terminated, or when nothing more can come.
    pub fn wait_stopped(&mut self, timeout_secs: u64, received: Received) -> (verdict: Option<
        Result<Event, Error>,
    >)
        requires
            old(self).wf(),
        ensures
            final(self).wf(),
            exists|now: std::time::Instant|
                final(self)@ == #[trigger] old(self)@.after_received(received, now),
            match verdict {
                None => crate::state::stop_verdict(timeout_secs, received) is None,
                Some(result) => crate::state::stop_verdict(timeout_secs, received) == Some(
                    crate::error::result_view(result),
                ),
            },
    {
        let now = crate::output::current_time();
        let verdict = match received {
            Received::Event(event) => {
                self.handle_event_at(&event, now);
                if event.is_stop() {
                    Some(Ok(event))
                } else {
                    None
                }
            },
            Received::Closed => Some(Err(Error::AdapterCrashed)),
            Received::TimedOut => Some(Err(Error::AwaitTimeout(timeout_secs))),
        };
        assert(self@ == old(self)@.after_received(received, now));
        verdict
    }

    /// How long to wait on for the program to settle, in nanoseconds; `None` where the time is
    /// up and the program counts as settled.
    pub fn settle_wait_left(elapsed_nanos: u128) -> (left: Option<u128>)
        ensures
            left == if elapsed_nanos < crate::state::SETTLE_MILLIS * 1_000_000 {
                Some((crate::state::SETTLE_MILLIS * 1_000_000 - elapsed_nanos) as u128)
            } else {
                None
            },
    {
        let timeout: u128 = crate::state::SETTLE_MILLIS as u128 * 1_000_000;
        if elapsed_nanos < timeout {
            Some(timeout - elapsed_nanos)
        } else {
            None
        }
    }

    /// Wait briefly for the state to settle after a request that changes it
    ///
    /// Takes what came of one round of waiting. `None` asks for another round.
    pub fn wait_settled(&mut self, received: Received) -> (verdict: Option<Result<(), Error>>)
        requires
            old(self).wf(),
        ensures
            final(self).wf(),
            exists|now: std::time::Instant|
                final(self)@ == #[trigger] old(self)@.after_received(received, now),
            match verdict {
                None => crate::state::settle_verdict(received) is None,
                Some(result) => crate::state::settle_verdict(received) == Some(
                    crate::error::result_view(result),
                ),
            },
    {
        let now = crate::output::current_time();
        let verdict = match received {
            Received::Event(event) => {
                self.handle_event_at(&event, now);
                if event.is_stop() {
                    Some(Ok(()))
                } else {
                    None
                }
            },
            Received::Closed => Some(Err(Error::AdapterCrashed)),
            Received::TimedOut => Some(Ok(())),
        };
        assert(self@ == old(self)@.after_received(received, now));
        verdict
    }

    /// Collect source breakpoints for a file
    pub fn collect_source_breakpoints(&self, file: &SourcePath) -> (requests: Vec<SourceBreakpoint>)
        requires
            self.wf(),
        ensures
            crate::protocol::source_views(requests@) == crate::breakpoints::line_requests(
                self@.breakpoints.breakpoints_of(file.key@),
            ),
    {
        self.breakpoints.line_requests(file)
    }

    /// Collect function breakpoints
    pub fn collect_function_breakpoints(&self) -> (requests: Vec<FunctionBreakpoint>)
        ensures
            crate::protocol::function_views(requests@) == crate::breakpoints::function_requests(
                self@.breakpoints.functions,
            ),
    {
        self.breakpoints.function_requests()
    }

    /// Update source breakpoint status from adapter response
    pub fn update_source_breakpoint_status(&mut self, file: &SourcePath, results: &Vec<Breakpoint>)
        requires
            old(self).wf(),
        ensures
            final(self).wf(),
            final(self)@ == (SessionView {
                breakpoints: old(self)@.breakpoints.with_line_answer(file.key@, results@),
                ..old(self)@
            }),
    {
        self.breakpoints.take_line_answer(file, results);
        assert(self@ =~= (SessionView {
            breakpoints: old(self)@.breakpoints.with_line_answer(file.key@, results@),
            ..old(self)@
        }));
    }

    /// Update function breakpoint status from adapter response
    pub fn update_function_breakpoint_status(&mut self, results: &Vec<Breakpoint>)
        requires
            old(self).wf(),
        ensures
            final(self).wf(),
            final(self)@ == (SessionView {
                breakpoints: old(self)@.breakpoints.with_function_answer(results@),
                ..old(self)@
            }),
    {
        self.breakpoints.take_function_answer(results);
        assert(self@ =~= (SessionView {
            breakpoints: old(self)@.breakpoints.with_function_answer(results@),
            ..old(self)@
        }));
    }

    /// Get breakpoint info by ID
    pub fn get_breakpoint_info(&self, id: u32) -> (result: Result<BreakpointInfo, Error>)
        requires
            self.wf(),
        ensures
            crate::error::result_view(result) == self@.breakpoints.lookup(id),
    {
        self.breakpoints.info(id)
    }

    /// The request for the enabled breakpoints of a file, or for the enabled function
    /// breakpoints.
    fn resend(&self, file: Option<SourcePath>, after: AfterBreakpoints) -> (step: Step)
        requires
            self.wf(),
        ensures
            step@ == self@.resend(file, after@),
    {
        match file {
            Some(file) => {
                let breakpoints = self.collect_source_breakpoints(&file);
                Step::SetBreakpoints { file, breakpoints, after }
            },
            None => Step::SetFunctionBreakpoints {
                breakpoints: self.collect_function_breakpoints(),
                after,
            },
        }
    }

    /// Whether a breakpoint can be added: there is a number left for it.
    pub fn can_add_breakpoint(&self) -> (can: bool)
        ensures
            can == (self@.breakpoints.next_id < u32::MAX),
    {
        self.breakpoints.next_id() < u32::MAX
    }

    /// Add a breakpoint
    pub fn add_breakpoint(
        &mut self,
        location: BreakpointLocation,
        condition: Option<String>,
        hit_count: Option<u32>,
    ) -> (step: Step)
        requires
            old(self).wf(),
            old(self)@.breakpoints.next_id < u32::MAX,
        ensures
            final(self).wf(),
            final(self)@ == old(self)@.add_breakpoint(location, condition, hit_count).0,
            step@ == old(self)@.add_breakpoint(location, condition, hit_count).1,
    {
        let file = match &location {
            BreakpointLocation::Line { file, .. } => Some(file.clone()),
            BreakpointLocation::Function { .. } => None,
        };
        let id = self.breakpoints.add(location, condition, hit_count);
        assert(self@ =~= old(self)@.add_breakpoint(location, condition, hit_count).0);
        self.resend(file.clone(), AfterBreakpoints::Added { id, file })
    }

    /// Remove a breakpoint by ID
    pub fn remove_breakpoint(&mut self, id: u32) -> (step: Step)
        requires
            old(self).wf(),
        ensures
            final(self).wf(),
            final(self)@ == old(self)@.remove_breakpoint(id).0,
            step@ == old(self)@.remove_breakpoint(id).1,
    {
        let removed = self.breakpoints.remove(id);
        assert(self@ =~= old(self)@.remove_breakpoint(id).0);
        match removed {
            Ok(file) => self.resend(file, AfterBreakpoints::Removed),
            Err(error) => Step::Done(Err(error)),
        }
    }

    /// Set breakpoint enabled state
    pub fn set_breakpoint_enabled(&mut self, id: u32, enabled: bool) -> (step: Step)
        requires
            old(self).wf(),
        ensures
            final(self).wf(),
            final(self)@ == old(self)@.set_breakpoint_enabled(id, enabled).0,
            step@ == old(self)@.set_breakpoint_enabled(id, enabled).1,
    {
        let switched = self.breakpoints.set_enabled(id, enabled);
        assert(self@ =~= old(self)@.set_breakpoint_enabled(id, enabled).0);
        match switched {
            Ok(file) => self.resend(file.clone(), AfterBreakpoints::Switched { file }),
            Err(error) => Step::Done(Err(error)),
        }
    }

    /// Enable a breakpoint
    pub fn enable_breakpoint(&mut self, id: u32) -> (step: Step)
        requires
            old(self).wf(),
        ensures
            final(self).wf(),
            final(self)@ == old(self)@.set_breakpoint_enabled(id, true).0,
            step@ == old(self)@.set_breakpoint_enabled(id, true).1,
    {
        self.set_breakpoint_enabled(id, true)
    }

    /// Disable a breakpoint
    pub fn disable_breakpoint(&mut self, id: u32) -> (step: Step)
        requires
            old(self).wf(),
        ensures
            final(self).wf(),
            final(self)@ == old(self)@.set_breakpoint_enabled(id, false).0,
            step@ == old(self)@.set_breakpoint_enabled(id, false).1,
    {
        self.set_breakpoint_enabled(id, false)
    }

    /// Has the adapter drop the breakpoints of the first of `files`, or, where there is none
    /// left, forgets all line breakpoints and has it drop the function breakpoints.
    fn clear_next(&mut self, files: Vec<SourcePath>) -> (step: Step)
        requires
            old(self).wf(),
        ensures
            final(self).wf(),
            final(self)@ == old(self)@.clear_next(files@).0,
            step@ == old(self)@.clear_next(files@).1,
    {
        if files.len() > 0 {
            let mut rest = files;
            let file = rest.remove(0);
            assert(rest@ =~= files@.drop_first());
            let breakpoints: Vec<SourceBreakpoint> = Vec::new();
            assert(crate::protocol::source_views(breakpoints@) =~= Seq::empty());
            Step::SetBreakpoints {
                file,
                breakpoints,
                after: AfterBreakpoints::ClearedFile { rest },
            }
        } else {
            self.breakpoints.clear_lines();
            assert(self@ =~= old(self)@.clear_next(files@).0);
            let breakpoints: Vec<FunctionBreakpoint> = Vec::new();
            assert(crate::protocol::function_views(breakpoints@) =~= Seq::empty());
            Step::SetFunctionBreakpoints { breakpoints, after: AfterBreakpoints::ClearedFunctions }
        }
    }

    /// Remove all breakpoints
    pub fn remove_all_breakpoints(&mut self) -> (step: Step)
        requires
            old(self).wf(),
        ensures
            final(self).wf(),
            final(self)@ == old(self)@.remove_all_breakpoints().0,
            step@ == old(self)@.remove_all_breakpoints().1,
    {
        let files = self.breakpoints.files();
        self.clear_next(files)
    }

    /// Takes the adapter's answer to a request for breakpoints.
    pub fn breakpoints_received(
        &mut self,
        after: AfterBreakpoints,
        reply: Result<Vec<Breakpoint>, Error>,
    ) -> (step: Step)
        requires
            old(self).wf(),
        ensures
            final(self).wf(),
            final(self)@ == old(self)@.breakpoints_received(
                after@,
                crate::error::list_view(reply),
            ).0,
            step@ == old(self)@.breakpoints_received(after@, crate::error::list_view(reply)).1,
    {
        match reply {
            Err(error) => Step::Done(Err(error)),
            Ok(results) => match after {
                AfterBreakpoints::Added { id, file } => {
                    match file {
                        Some(file) => self.update_source_breakpoint_status(&file, &results),
                        None => self.update_function_breakpoint_status(&results),
                    }
                    match self.get_breakpoint_info(id) {
                        Ok(info) => Step::Done(Ok(Outcome::Info(info))),
                        Err(error) => Step::Done(Err(error)),
                    }
                },
                AfterBreakpoints::Switched { file } => {
                    match file {
                        Some(file) => self.update_source_breakpoint_status(&file, &results),
                        None => self.update_function_breakpoint_status(&results),
                    }
                    Step::Done(Ok(Outcome::Unit))
                },
                AfterBreakpoints::Removed => Step::Done(Ok(Outcome::Unit)),
                AfterBreakpoints::ClearedFile { rest } => self.clear_next(rest),
                AfterBreakpoints::ClearedFunctions => {
                    self.breakpoints.clear_functions();
                    assert(self@ =~= old(self)@.breakpoints_received(
                        after@,
                        crate::error::list_view(reply),
                    ).0);
                    Step::Done(Ok(Outcome::Unit))
                },
            },
        }
    }

    /// List all breakpoints
    pub fn list_breakpoints(&self) -> (infos: Vec<BreakpointInfo>)
        ensures
            infos@ == self@.breakpoints.infos(),
    {
        self.breakpoints.list()
    }

    /// Ensure we're in stopped state for inspection commands
    pub fn ensure_stopped(&self) -> (result: Result<(), Error>)
        ensures
            crate::error::result_view(result) == match self@.not_stopped() {
                Some(error) => Err(error),
                None => Ok(()),
            },
    {
        match self.state {
            SessionState::Stopped => Ok(()),
            SessionState::Exited => Err(
                Error::ProgramExited(
                    match self.exit_code {
                        Some(code) => code,
                        None => 0,
                    },
                ),
            ),
            _ => Err(Error::invalid_state("inspect", self.state.to_string().as_str())),
        }
    }

    /// Get a thread ID (preferring selected > stopped > first); `None` where the threads have to
    /// be asked for
    pub fn get_thread_id(&self) -> (id: Option<i64>)
        ensures
            id == self@.known_thread(),
    {
        if self.selected_thread.is_some() {
            return self.selected_thread;
        }
        if self.stopped_thread.is_some() {
            return self.stopped_thread;
        }
        if self.threads.len() > 0 {
            Some(self.threads[0].id)
        } else {
            None
        }
    }

    /// What a request on a thread comes to.
    fn with_thread(&self, purpose: ThreadUse) -> (step: Step)
        ensures
            step@ == self@.with_thread(purpose@),
    {
        match self.get_thread_id() {
            Some(id) => thread_step(purpose, id),
            None => Step::Threads(AfterThreads::Use(purpose)),
        }
    }

    /// What a request on a frame comes to.
    fn with_frame(&self, purpose: FrameUse, frame_id: Option<i64>) -> (step: Step)
        ensures
            step@ == self@.with_frame(purpose@, frame_id),
    {
        if frame_id.is_some() {
            frame_step(purpose, frame_id)
        } else if self.current_frame.is_some() {
            frame_step(purpose, self.current_frame)
        } else {
            self.with_thread(ThreadUse::TopFrame(purpose))
        }
    }

    /// Lets a stopped debuggee run.
    fn resume(&self, motion: Motion) -> (step: Step)
        ensures
            step@ == self@.resume(motion),
    {
        if motion == Motion::Continue && self.state == SessionState::Running {
            return Step::Done(Ok(Outcome::Unit));
        }
        match self.ensure_stopped() {
            Ok(()) => Step::Drain(motion),
            Err(error) => Step::Done(Err(error)),
        }
    }

    /// Continue execution
    pub fn continue_execution(&self) -> (step: Step)
        ensures
            step@ == self@.resume(Motion::Continue),
    {
        self.resume(Motion::Continue)
    }

    /// Step over (next)
    pub fn next(&self) -> (step: Step)
        ensures
            step@ == self@.resume(Motion::Next),
    {
        self.resume(Motion::Next)
    }

    /// Step into
    pub fn step_in(&self) -> (step: Step)
        ensures
            step@ == self@.resume(Motion::StepIn),
    {
        self.resume(Motion::StepIn)
    }

    /// Step out
    pub fn step_out(&self) -> (step: Step)
        ensures
            step@ == self@.resume(Motion::StepOut),
    {
        self.resume(Motion::StepOut)
    }

    /// Takes the events that had arrived when the debuggee was to run on, and goes on.
    pub fn drained(&mut self, motion: Motion, events: Vec<Event>) -> (step: Step)
        requires
            old(self).wf(),
        ensures
            final(self).wf(),
            old(self)@.comes_to(events@, final(self)@),
            step@ == final(self)@.with_thread(crate::step::ThreadUseView::Resume(motion)),
    {
        self.drain_pending_events(&events);
        self.with_thread(ThreadUse::Resume(motion))
    }

    /// Pause execution
    pub fn pause(&self) -> (step: Step)
        ensures
            step@ == self@.pause(),
    {
        if self.state != SessionState::Running {
            return Step::Done(
                Err(Error::invalid_state("pause", self.state.to_string().as_str())),
            );
        }
        self.with_thread(ThreadUse::Pause)
    }

    /// Get stack trace
    pub fn stack_trace(&self, limit: usize) -> (step: Step)
        ensures
            step@ == self@.if_stopped(
                self@.with_thread(
                    crate::step::ThreadUseView::StackTrace { levels: limit as i64 },
                ),
            ),
    {
        match self.ensure_stopped() {
            Ok(()) => self.with_thread(
                ThreadUse::StackTrace { levels: #[verifier::truncate] (limit as i64) },
            ),
            Err(error) => Step::Done(Err(error)),
        }
    }

    /// Get threads
    pub fn get_threads(&self) -> (step: Step)
        ensures
            step@ == crate::step::StepView::Threads(crate::step::AfterThreadsView::Refresh),
    {
        Step::Threads(AfterThreads::Refresh)
    }

    /// Takes the adapter's answer to a request for the threads.
    pub fn threads_received(
        &mut self,
        after: AfterThreads,
        reply: Result<Vec<Thread>, Error>,
    ) -> (step: Step)
        requires
            old(self).wf(),
        ensures
            final(self).wf(),
            final(self)@ == old(self)@.threads_received(after@, crate::error::list_view(reply)).0,
            step@ == old(self)@.threads_received(after@, crate::error::list_view(reply)).1,
    {
        match reply {
            Err(error) => Step::Done(Err(error)),
            Ok(threads) => {
                self.threads = threads;
                assert(self@ =~= (SessionView { threads: threads@, ..old(self)@ }));
                match after {
                    AfterThreads::Refresh => Step::Done(
                        Ok(Outcome::Threads(copy_threads(&self.threads))),
                    ),
                    AfterThreads::Use(purpose) => if self.threads.len() > 0 {
                        thread_step(purpose, self.threads[0].id)
                    } else {
                        Step::Done(Err(Error::internal("No threads available")))
                    },
                }
            },
        }
    }

    /// Makes the frame at `index` of those at hand the current one.
    fn frame_selected(&mut self, index: usize) -> (step: Step)
        requires
            old(self).wf(),
        ensures
            final(self).wf(),
            final(self)@ == old(self)@.frame_selected(index).0,
            step@ == old(self)@.frame_selected(index).1,
    {
        if index >= self.cached_frames.len() {
            return Step::Done(Err(Error::FrameNotFound(index)));
        }
        self.current_frame_index = index;
        self.current_frame = Some(self.cached_frames[index].id);
        assert(self@ =~= old(self)@.frame_selected(index).0);
        Step::Done(Ok(Outcome::Frame(self.cached_frames[index].clone())))
    }

    /// Select a stack frame by index (0 = top/innermost)
    pub fn select_frame(&mut self, frame_index: usize) -> (step: Step)
        requires
            old(self).wf(),
            old(self)@.state is Stopped ==> frame_index < usize::MAX,
        ensures
            final(self).wf(),
            final(self)@ == old(self)@.select_frame(frame_index).0,
            step@ == old(self)@.select_frame(frame_index).1,
    {
        if let Err(error) = self.ensure_stopped() {
            return Step::Done(Err(error));
        }
        if frame_index < self.cached_frames.len() {
            return self.frame_selected(frame_index);
        }
        let needed: usize = if frame_index + 1 > crate::state::FRAMES_FETCHED {
            frame_index + 1
        } else {
            crate::state::FRAMES_FETCHED
        };
        self.with_thread(
            ThreadUse::SelectFrame {
                index: frame_index,
                levels: #[verifier::truncate] (needed as i64),
            },
        )
    }

    /// Move up the stack (to caller frame)
    pub fn frame_up(&mut self) -> (step: Step)
        requires
            old(self).wf(),
            old(self)@.state is Stopped ==> old(self)@.current_frame_index + 1 < usize::MAX,
        ensures
            final(self).wf(),
            final(self)@ == old(self)@.frame_up().0,
            step@ == old(self)@.frame_up().1,
    {
        let new_index = self.current_frame_index + 1;
        self.select_frame(new_index)
    }

    /// Move down the stack (toward innermost/current frame)
    pub fn frame_down(&mut self) -> (step: Step)
        requires
            old(self).wf(),
        ensures
            final(self).wf(),
            final(self)@ == old(self)@.frame_down().0,
            step@ == old(self)@.frame_down().1,
    {
        if self.current_frame_index == 0 {
            return Step::Done(
                Err(Error::invalid_state("frame down", "already at innermost frame")),
            );
        }
        let new_index = self.current_frame_index - 1;
        self.select_frame(new_index)
    }

    /// Takes the adapter's answer to a request for frames.
    pub fn frames_received(
        &mut self,
        after: AfterFrames,
        reply: Result<Vec<StackFrame>, Error>,
    ) -> (step: Step)
        requires
            old(self).wf(),
        ensures
            final(self).wf(),
            final(self)@ == old(self)@.frames_received(after@, crate::error::list_view(reply)).0,
            step@ == old(self)@.frames_received(after@, crate::error::list_view(reply)).1,
    {
        match reply {
            Err(error) => Step::Done(Err(error)),
            Ok(frames) => match after {
                AfterFrames::StackTrace => {
                    if frames.len() > 0 {
                        self.current_frame = Some(frames[0].id);
                    }
                    assert(self@ =~= old(self)@.frames_received(
                        after@,
                        crate::error::list_view(reply),
                    ).0);
                    Step::Done(Ok(Outcome::Frames(frames)))
                },
                AfterFrames::SelectFrame { index } => {
                    self.cached_frames = frames;
                    assert(self@ =~= (SessionView { cached_frames: frames@, ..old(self)@ }));
                    self.frame_selected(index)
                },
                AfterFrames::TopFrame(purpose) => {
                    let top = if frames.len() > 0 {
                        Some(frames[0].id)
                    } else {
                        None
                    };
                    if top.is_some() {
                        self.current_frame = top;
                    }
                    assert(self@ =~= old(self)@.frames_received(
                        after@,
                        crate::error::list_view(reply),
                    ).0);
                    frame_step(purpose, top)
                },
            },
        }
    }

    /// Get scopes for current frame
    pub fn get_scopes(&self, frame_id: Option<i64>) -> (step: Step)
        ensures
            step@ == self@.if_stopped(
                self@.with_frame(crate::step::FrameUseView::Scopes { locals: false }, frame_id),
            ),
    {
        match self.ensure_stopped() {
            Ok(()) => self.with_frame(FrameUse::Scopes { locals: false }, frame_id),
            Err(error) => Step::Done(Err(error)),
        }
    }

    /// Get variables
    pub fn get_variables(&self, reference: i64) -> (step: Step)
        ensures
            step@ == self@.if_stopped(crate::step::StepView::Variables { reference }),
    {
        match self.ensure_stopped() {
            Ok(()) => Step::Variables { reference },
            Err(error) => Step::Done(Err(error)),
        }
    }

    /// Get local variables for current frame
    pub fn get_locals(&self, frame_id: Option<i64>) -> (step: Step)
        ensures
            step@ == self@.if_stopped(
                self@.with_frame(crate::step::FrameUseView::Scopes { locals: true }, frame_id),
            ),
    {
        match self.ensure_stopped() {
            Ok(()) => self.with_frame(FrameUse::Scopes { locals: true }, frame_id),
            Err(error) => Step::Done(Err(error)),
        }
    }

    /// Takes the adapter's answer to a request for scopes.
    pub fn scopes_received(&self, locals: bool, reply: Result<Vec<Scope>, Error>) -> (step: Step)
        ensures
            step@ == self@.scopes_received(locals, crate::error::list_view(reply)),
    {
        match reply {
            Err(error) => Step::Done(Err(error)),
            Ok(scopes) => if locals {
                match choose_locals(&scopes) {
                    Some(reference) => self.get_variables(reference),
                    None => {
                        let variables: Vec<Variable> = Vec::new();
                        Step::Done(Ok(Outcome::Variables(variables)))
                    },
                }
            } else {
                Step::Done(Ok(Outcome::Scopes(scopes)))
            },
        }
    }

    /// Takes the adapter's answer to a request for variables.
    pub fn variables_received(&self, reply: Result<Vec<Variable>, Error>) -> (step: Step)
        ensures
            step@ == match reply {
                Ok(variables) => crate::state::done(
                    crate::step::OutcomeView::Variables(variables@),
                ),
                Err(error) => crate::state::refused(error@),
            },
    {
        match reply {
            Ok(variables) => Step::Done(Ok(Outcome::Variables(variables))),
            Err(error) => Step::Done(Err(error)),
        }
    }

    /// Evaluate an expression
    pub fn evaluate(&self, expression: &str, frame_id: Option<i64>, context: &str) -> (step: Step)
        ensures
            step@ == self@.if_stopped(
                self@.with_frame(
                    crate::step::FrameUseView::Evaluate {
                        expression: expression@,
                        context: context@,
                    },
                    frame_id,
                ),
            ),
    {
        match self.ensure_stopped() {
            Ok(()) => self.with_frame(
                FrameUse::Evaluate {
                    expression: expression.to_string(),
                    context: context.to_string(),
                },
                frame_id,
            ),
            Err(error) => Step::Done(Err(error)),
        }
    }

    /// Takes the adapter's answer to an expression.
    pub fn evaluated(&self, reply: Result<EvaluateResponseBody, Error>) -> (step: Step)
        ensures
            step@ == match reply {
                Ok(body) => crate::state::done(crate::step::OutcomeView::Evaluation(body)),
                Err(error) => crate::state::refused(error@),
            },
    {
        match reply {
            Ok(body) => Step::Done(Ok(Outcome::Evaluation(body))),
            Err(error) => Step::Done(Err(error)),
        }
    }

    /// Get buffered output
    pub fn get_output(&mut self, tail: Option<usize>, clear: bool) -> (events: Vec<OutputEvent>)
        requires
            old(self).wf(),
        ensures
            final(self).wf(),
            crate::output::event_views(events@) == old(self)@.output.newest(tail),
            final(self)@ == if clear {
                SessionView { output: old(self)@.output.cleared(), ..old(self)@ }
            } else {
                old(self)@
            },
    {
        self.output.take_newest(tail, clear)
    }

    /// Detach from the debuggee (keep it running)
    pub fn detach(&mut self) -> (step: Step)
        requires
            old(self).wf(),
        ensures
            final(self).wf(),
            final(self)@ == old(self)@.end(false).0,
            step@ == old(self)@.end(false).1,
    {
        self.state = SessionState::Terminating;
        Step::Control {
            request: Control::Disconnect { terminate_debuggee: false },
            after: AfterControl::Detached,
        }
    }

    /// Stop the debuggee and terminate session
    pub fn stop(&mut self) -> (step: Step)
        requires
            old(self).wf(),
        ensures
            final(self).wf(),
            final(self)@ == old(self)@.end(true).0,
            step@ == old(self)@.end(true).1,
    {
        self.state = SessionState::Terminating;
        Step::Control {
            request: Control::Disconnect { terminate_debuggee: self.launched },
            after: AfterControl::Disconnected,
        }
    }

    /// Restart the debug session using the DAP restart request.
    ///
    /// Note: The caller should check the `supports_restart_request` capability before calling
    /// this method.
    pub fn restart(&self) -> (step: Step)
        ensures
            step@ == (crate::step::StepView::Control {
                request: Control::Restart { no_debug: false },
                after: AfterControl::Restarted,
            }),
    {
        Step::Control {
            request: Control::Restart { no_debug: false },
            after: AfterControl::Restarted,
        }
    }

    /// Takes the adapter's acknowledgement, or its refusal.
    pub fn control_acknowledged(&mut self, after: AfterControl, reply: Result<(), Error>) -> (step:
        Step)
        requires
            old(self).wf(),
        ensures
            final(self).wf(),
            final(self)@ == old(self)@.control_acknowledged(
                after,
                crate::error::result_view(reply),
            ).0,
            step@ == old(self)@.control_acknowledged(after, crate::error::result_view(reply)).1,
    {
        if let Err(error) = reply {
            return Step::Done(Err(error));
        }
        match after {
            AfterControl::Resumed(motion) => {
                self.state = SessionState::Running;
                if motion == Motion::Continue {
                    self.stopped_thread = None;
                    self.stopped_reason = None;
                }
                assert(self@ =~= old(self)@.control_acknowledged(
                    after,
                    crate::error::result_view(reply),
                ).0);
                Step::Done(Ok(Outcome::Unit))
            },
            AfterControl::Paused | AfterControl::Detached | AfterControl::Terminated => Step::Done(
                Ok(Outcome::Unit),
            ),
            AfterControl::Disconnected => Step::Control {
                request: Control::Terminate,
                after: AfterControl::Terminated,
            },
            AfterControl::Restarted => {
                self.forget_frames();
                self.state = SessionState::Running;
                self.stopped_thread = None;
                self.stopped_reason = None;
                assert(self@ =~= old(self)@.control_acknowledged(
                    after,
                    crate::error::result_view(reply),
                ).0);
                Step::Settle
            },
        }
    }

    /// Takes what waiting for the debuggee to settle came to.
    pub fn settled(&self, result: Result<(), Error>) -> (step: Step)
        ensures
            step@ == match result {
                Ok(()) => crate::state::done(crate::step::OutcomeView::Unit),
                Err(error) => crate::state::refused(error@),
            },
    {
        match result {
            Ok(()) => Step::Done(Ok(Outcome::Unit)),
            Err(error) => Step::Done(Err(error)),
        }
    }

    /// Select a thread for debugging operations
    ///
    /// Returns an error if the thread is not found in the current thread list.
    /// Note: The thread list may be stale; call `get_threads()` first to refresh.
    pub fn select_thread(&mut self, thread_id: i64) -> (result: Result<(), Error>)
        requires
            old(self).wf(),
        ensures
            final(self).wf(),
            final(self)@ == old(self)@.select_thread(thread_id).0,
            crate::error::result_view(result) == old(self)@.select_thread(thread_id).1,
    {
        if !knows_thread(&self.threads, thread_id) {
            let mut message = "Thread ".to_string();
            message.append(crate::text::signed_decimal_text(thread_id).as_str());
            message.append(" not found. Use 'threads' command to see available threads.");
            return Err(Error::Internal(message));
        }
        self.forget_frames();
        self.selected_thread = Some(thread_id);
        assert(self@ =~= old(self)@.select_thread(thread_id).0);
        Ok(())
    }

    /// Get current state
    pub fn state(&self) -> (state: SessionState)
        ensures
            state == self@.state,
    {
        self.state
    }

    /// Get program path
    pub fn program(&self) -> (program: &str)
        ensures
            program@ == self@.program,
    {
        self.program.as_str()
    }

    /// Get adapter name
    pub fn adapter_name(&self) -> (name: &str)
        ensures
            name@ == self@.adapter_name,
    {
        self.adapter_name.as_str()
    }

    /// Get stopped thread ID
    pub fn stopped_thread(&self) -> (id: Option<i64>)
        ensures
            id == self@.stopped_thread,
    {
        self.stopped_thread
    }

    /// Get stopped reason
    pub fn stopped_reason(&self) -> (reason: Option<&str>)
        ensures
            match reason {
                Some(text) => self@.stopped_reason == Some(text@),
                None => self@.stopped_reason is None,
            },
    {
        match &self.stopped_reason {
            Some(reason) => Some(reason.as_str()),
            None => None,
        }
    }

    /// Get exit code if exited
    pub fn exit_code(&self) -> (code: Option<i32>)
        ensures
            code == self@.exit_code,
    {
        self.exit_code
    }

    /// Get the currently selected thread (for UI display)
    pub fn get_selected_thread(&self) -> (id: Option<i64>)
        ensures
            id == if self@.selected_thread is Some {
                self@.selected_thread
            } else {
                self@.stopped_thread
            },
    {
        if self.selected_thread.is_some() {
            self.selected_thread
        } else {
            self.stopped_thread
        }
    }

    /// Get current frame index
    pub fn get_current_frame_index(&self) -> (index: usize)
        ensures
            index == self@.current_frame_index,
    {
        self.current_frame_index
    }

    /// Get adapter capabilities
    pub fn capabilities(&self) -> (capabilities: &Capabilities)
        ensures
            *capabilities == self@.capabilities,
    {
        &self.capabilities
    }

    /// Check if adapter supports a capability before using it
    pub fn supports_function_breakpoints(&self) -> (supported: bool)
        ensures
            supported == self@.capabilities.supports_function_breakpoints,
    {
        self.capabilities.supports_function_breakpoints
    }

    /// Check if adapter supports conditional breakpoints
    pub fn supports_conditional_breakpoints(&self) -> (supported: bool)
        ensures
            supported == self@.capabilities.supports_conditional_breakpoints,
    {
        self.capabilities.supports_conditional_breakpoints
    }

    /// Check if adapter supports hit conditional breakpoints
    pub fn supports_hit_conditional_breakpoints(&self) -> (supported: bool)
        ensures
            supported == self@.capabilities.supports_hit_conditional_breakpoints,
    {
        self.capabilities.supports_hit_conditional_breakpoints
    }
}

} // verus!
