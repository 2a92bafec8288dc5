use debug_session::error::Error;
use debug_session::protocol::{
    Breakpoint, Capabilities, EvaluateResponseBody, Event, ExitedEventBody, OutputEventBody, Scope,
    Source, StackFrame, StoppedEventBody, TerminatedEventBody, Thread, ThreadEventBody, Variable,
};
use debug_session::session::DebugSession;
use debug_session::setup::{Config, Defaults, Handshake, OpeningStep, OutputLimits, Timeouts};
use debug_session::state::SessionState;
use debug_session::step::{
    AfterControl, AfterFrames, AfterThreads, Control, Motion, Outcome, Received, Step, ThreadUse,
};

fn config() -> Config {
    Config {
        defaults: Defaults { adapter: "lldb-dap".to_string() },
        timeouts: Timeouts { dap_initialize_secs: 10, dap_request_secs: 30 },
        output: OutputLimits { max_events: 100, max_bytes_mb: 1 },
    }
}

fn capabilities() -> Capabilities {
    Capabilities {
        supports_function_breakpoints: true,
        supports_conditional_breakpoints: false,
        supports_hit_conditional_breakpoints: true,
        supports_restart_request: true,
    }
}

fn open(step: OpeningStep) -> DebugSession {
    match step {
        OpeningStep::FindAdapter { next } => {
            let handshake = Handshake { opening: next, capabilities: capabilities() };
            match handshake.events_taken(true) {
                OpeningStep::Settle { next } => match next.settled(Ok(())) {
                    Ok(session) => session,
                    Err(error) => panic!("{:?}", error),
                },
                other => panic!("{:?}", other),
            }
        }
        other => panic!("{:?}", other),
    }
}

fn attached() -> DebugSession {
    open(DebugSession::attach(&config(), 4711, None))
}

fn launched() -> DebugSession {
    open(DebugSession::launch(&config(), "/bin/prog", Vec::new(), None, false, Vec::new()))
}

fn thread(id: i64) -> Thread {
    Thread { id, name: format!("thread {}", id) }
}

fn frame(id: i64) -> StackFrame {
    StackFrame { id, name: format!("frame {}", id), source: None, line: 1, column: 0 }
}

fn frames(count: i64) -> Vec<StackFrame> {
    (0..count).map(|i| frame(1000 + i)).collect()
}

fn scope(name: &str, variables_reference: i64) -> Scope {
    Scope { name: name.to_string(), variables_reference, expensive: false }
}

fn stopped(thread_id: Option<i64>) -> Event {
    Event::Stopped(StoppedEventBody {
        reason: "breakpoint".to_string(),
        thread_id,
        hit_breakpoint_ids: vec![7],
    })
}

fn exited(exit_code: i32) -> Event {
    Event::Exited(ExitedEventBody { exit_code })
}

fn terminated() -> Event {
    Event::Terminated(TerminatedEventBody { restart: false })
}

fn thread_exited(thread_id: i64) -> Event {
    Event::Thread(ThreadEventBody { reason: "exited".to_string(), thread_id })
}

fn done_ok(step: Step) -> Outcome {
    match step {
        Step::Done(Ok(outcome)) => outcome,
        other => panic!("{:?}", other),
    }
}

fn done_err(step: Step) -> Error {
    match step {
        Step::Done(Err(error)) => error,
        other => panic!("{:?}", other),
    }
}

fn refresh(session: &mut DebugSession, ids: &[i64]) {
    let threads: Vec<Thread> = ids.iter().map(|id| thread(*id)).collect();
    let step = session.threads_received(AfterThreads::Refresh, Ok(threads));
    assert!(matches!(done_ok(step), Outcome::Threads(list) if list.len() == ids.len()));
}

fn is_invalid(error: &Error, wanted_action: &str, wanted_state: &str) -> bool {
    match error {
        Error::InvalidState { action, state } => action == wanted_action && state == wanted_state,
        _ => false,
    }
}

#[test]
fn states_have_lower_case_names() {
    assert_eq!(SessionState::Idle.to_string(), "idle");
    assert_eq!(SessionState::Initializing.to_string(), "initializing");
    assert_eq!(SessionState::Configuring.to_string(), "configuring");
    assert_eq!(SessionState::Running.to_string(), "running");
    assert_eq!(SessionState::Stopped.to_string(), "stopped");
    assert_eq!(SessionState::Exited.to_string(), "exited");
    assert_eq!(SessionState::Terminating.to_string(), "terminating");
}

#[test]
fn getters_show_the_setup() {
    let session = attached();
    assert_eq!(session.state(), SessionState::Stopped);
    assert_eq!(session.program(), "pid:4711");
    assert_eq!(session.adapter_name(), "lldb-dap");
    assert_eq!(session.stopped_thread(), None);
    assert_eq!(session.stopped_reason(), Some("attach"));
    assert_eq!(session.exit_code(), None);
    assert_eq!(session.get_selected_thread(), None);
    assert_eq!(session.get_current_frame_index(), 0);
    assert_eq!(*session.capabilities(), capabilities());
    assert!(session.supports_function_breakpoints());
    assert!(!session.supports_conditional_breakpoints());
    assert!(session.supports_hit_conditional_breakpoints());
    let session = launched();
    assert_eq!(session.state(), SessionState::Running);
    assert_eq!(session.program(), "/bin/prog");
    assert_eq!(session.stopped_reason(), None);
}

#[test]
fn stop_event_resets_frames() {
    let mut session = attached();
    let step = session.frames_received(AfterFrames::SelectFrame { index: 2 }, Ok(frames(5)));
    assert!(matches!(done_ok(step), Outcome::Frame(frame) if frame.id == 1002));
    assert_eq!(session.get_current_frame_index(), 2);
    session.handle_event(&stopped(Some(9)));
    assert_eq!(session.state(), SessionState::Stopped);
    assert_eq!(session.stopped_thread(), Some(9));
    assert_eq!(session.stopped_reason(), Some("breakpoint"));
    assert_eq!(session.get_current_frame_index(), 0);
    // Nothing is cached any more, so the frames are asked for anew.
    let step = session.select_frame(0);
    assert!(matches!(step, Step::StackTrace { thread_id: 9, levels: 20, .. }));
}

#[test]
fn continued_event_clears_the_stop() {
    let mut session = attached();
    session.handle_event(&stopped(Some(9)));
    session.handle_event(&Event::Continued { thread_id: 9, all_threads_continued: true });
    assert_eq!(session.state(), SessionState::Running);
    assert_eq!(session.stopped_thread(), None);
    assert_eq!(session.stopped_reason(), None);
}

#[test]
fn exit_code_survives_termination() {
    let mut session = launched();
    session.handle_event(&exited(3));
    session.handle_event(&terminated());
    assert_eq!(session.state(), SessionState::Exited);
    assert_eq!(session.exit_code(), Some(3));
    assert!(matches!(done_err(session.stack_trace(1)), Error::ProgramExited(3)));
}

#[test]
fn termination_without_a_code_counts_as_zero() {
    let mut session = launched();
    session.handle_event(&terminated());
    assert_eq!(session.exit_code(), None);
    assert!(matches!(done_err(session.get_variables(1)), Error::ProgramExited(0)));
}

#[test]
fn other_events_change_nothing() {
    let mut session = attached();
    session.handle_event(&Event::Initialized);
    session.handle_event(&Event::Other { event: "module".to_string() });
    session.handle_event(&Event::Thread(ThreadEventBody {
        reason: "started".to_string(),
        thread_id: 4,
    }));
    assert_eq!(session.state(), SessionState::Stopped);
    assert_eq!(session.stopped_reason(), Some("attach"));
}

#[test]
fn events_keep_the_setup() {
    let mut session = launched();
    for event in [stopped(Some(1)), thread_exited(1), exited(2), terminated()] {
        session.handle_event(&event);
        assert_eq!(session.program(), "/bin/prog");
        assert_eq!(session.adapter_name(), "lldb-dap");
        assert_eq!(*session.capabilities(), capabilities());
    }
}

#[test]
fn events_are_processed_in_order_and_handed_back() {
    let mut session = launched();
    let handled = session.process_events(vec![
        stopped(Some(1)),
        Event::Continued { thread_id: 1, all_threads_continued: true },
        stopped(Some(2)),
    ]);
    match handled {
        Ok(events) => {
            assert_eq!(events.len(), 3);
            assert!(matches!(&events[1], Event::Continued { thread_id: 1, .. }));
        }
        Err(error) => panic!("{:?}", error),
    }
    assert_eq!(session.state(), SessionState::Stopped);
    assert_eq!(session.stopped_thread(), Some(2));
    // In two runs they come to the same.
    let mut twice = launched();
    assert!(twice.process_events(vec![stopped(Some(1))]).is_ok());
    assert!(twice
        .process_events(vec![
            Event::Continued { thread_id: 1, all_threads_continued: true },
            stopped(Some(2)),
        ])
        .is_ok());
    assert_eq!(twice.stopped_thread(), Some(2));
}

#[test]
fn draining_comes_to_the_same_as_processing() {
    let events = || {
        vec![
            stopped(Some(1)),
            Event::Output(OutputEventBody { category: None, output: "one".to_string() }),
            Event::Output(OutputEventBody { category: None, output: "two".to_string() }),
            exited(4),
        ]
    };
    let mut drained = launched();
    drained.drain_pending_events(&events());
    let mut processed = launched();
    assert!(processed.process_events(events()).is_ok());
    assert_eq!(drained.state(), processed.state());
    assert_eq!(drained.exit_code(), Some(4));
    assert_eq!(processed.exit_code(), Some(4));
    assert_eq!(drained.stopped_thread(), processed.stopped_thread());
    let (a, b) = (drained.get_output(None, false), processed.get_output(None, false));
    assert_eq!(a.len(), 2);
    assert_eq!(b.len(), 2);
    for i in 0..2 {
        assert_eq!(a[i].category, b[i].category);
        assert_eq!(a[i].output, b[i].output);
    }
}

#[test]
fn exited_thread_is_forgotten() {
    let mut session = attached();
    refresh(&mut session, &[1, 2, 3]);
    assert!(session.select_thread(2).is_ok());
    session.handle_event(&thread_exited(2));
    assert_eq!(session.get_selected_thread(), None);
    assert!(session.select_thread(2).is_err());
    assert!(session.select_thread(3).is_ok());
    session.handle_event(&thread_exited(1));
    assert_eq!(session.get_selected_thread(), Some(3));
}

#[test]
fn unknown_thread_is_not_selected() {
    let mut session = attached();
    refresh(&mut session, &[1]);
    match session.select_thread(-12) {
        Err(Error::Internal(message)) => assert_eq!(
            message,
            "Thread -12 not found. Use 'threads' command to see available threads."
        ),
        other => panic!("{:?}", other),
    }
    assert_eq!(session.get_selected_thread(), None);
}

#[test]
fn selected_thread_comes_before_stopped_before_first() {
    let mut session = attached();
    assert!(matches!(
        session.stack_trace(4),
        Step::Threads(AfterThreads::Use(ThreadUse::StackTrace { levels: 4 }))
    ));
    refresh(&mut session, &[5, 6]);
    assert!(matches!(session.stack_trace(4), Step::StackTrace { thread_id: 5, levels: 4, .. }));
    session.handle_event(&stopped(Some(6)));
    assert!(matches!(session.stack_trace(4), Step::StackTrace { thread_id: 6, .. }));
    assert_eq!(session.get_selected_thread(), Some(6));
    assert!(session.select_thread(5).is_ok());
    assert!(matches!(session.stack_trace(4), Step::StackTrace { thread_id: 5, .. }));
    assert_eq!(session.get_selected_thread(), Some(5));
    assert_eq!(session.get_thread_id(), Some(5));
}

#[test]
fn no_threads_is_an_error() {
    let mut session = attached();
    let after = match session.stack_trace(1) {
        Step::Threads(after) => after,
        other => panic!("{:?}", other),
    };
    match done_err(session.threads_received(after, Ok(Vec::new()))) {
        Error::Internal(message) => assert_eq!(message, "No threads available"),
        other => panic!("{:?}", other),
    }
}

#[test]
fn failed_request_ends_with_its_error() {
    let mut session = attached();
    refresh(&mut session, &[1, 2]);
    let lost = || Error::Request("lost".to_string());
    let step = session.threads_received(AfterThreads::Refresh, Err(lost()));
    assert!(matches!(done_err(step), Error::Request(text) if text == "lost"));
    // The list is still there.
    assert!(session.select_thread(2).is_ok());
    let step = session.frames_received(AfterFrames::SelectFrame { index: 1 }, Err(lost()));
    assert!(matches!(done_err(step), Error::Request(_)));
    assert_eq!(session.get_current_frame_index(), 0);
    let step = session.control_acknowledged(AfterControl::Resumed(Motion::Next), Err(lost()));
    assert!(matches!(done_err(step), Error::Request(_)));
    assert_eq!(session.state(), SessionState::Stopped);
    assert!(matches!(done_err(session.scopes_received(true, Err(lost()))), Error::Request(_)));
    assert!(matches!(done_err(session.variables_received(Err(lost()))), Error::Request(_)));
    assert!(matches!(done_err(session.evaluated(Err(lost()))), Error::Request(_)));
    assert!(matches!(done_err(session.settled(Err(lost()))), Error::Request(_)));
}

#[test]
fn inspection_is_refused_while_running() {
    let mut session = launched();
    assert!(is_invalid(&done_err(session.next()), "inspect", "running"));
    assert!(is_invalid(&done_err(session.step_in()), "inspect", "running"));
    assert!(is_invalid(&done_err(session.step_out()), "inspect", "running"));
    assert!(is_invalid(&done_err(session.stack_trace(1)), "inspect", "running"));
    assert!(is_invalid(&done_err(session.get_scopes(Some(1))), "inspect", "running"));
    assert!(is_invalid(&done_err(session.get_locals(Some(1))), "inspect", "running"));
    assert!(is_invalid(&done_err(session.get_variables(1)), "inspect", "running"));
    assert!(is_invalid(&done_err(session.evaluate("x", None, "repl")), "inspect", "running"));
    assert!(is_invalid(&done_err(session.select_frame(0)), "inspect", "running"));
    assert!(is_invalid(&done_err(session.frame_up()), "inspect", "running"));
    assert!(session.ensure_stopped().is_err());
}

#[test]
fn continuing_while_running_succeeds_at_once() {
    let session = launched();
    assert!(matches!(done_ok(session.continue_execution()), Outcome::Unit));
}

#[test]
fn continue_goes_to_the_thread_after_pending_events() {
    let mut session = attached();
    let motion = match session.continue_execution() {
        Step::Drain(motion) => motion,
        other => panic!("{:?}", other),
    };
    let step = session.drained(motion, vec![stopped(Some(8))]);
    let after = match step {
        Step::Control { request: Control::Continue { thread_id: 8 }, after } => after,
        other => panic!("{:?}", other),
    };
    assert!(matches!(done_ok(session.control_acknowledged(after, Ok(()))), Outcome::Unit));
    assert_eq!(session.state(), SessionState::Running);
    assert_eq!(session.stopped_thread(), None);
    assert_eq!(session.stopped_reason(), None);
}

#[test]
fn steps_keep_the_thread_that_stopped() {
    let mut session = attached();
    session.handle_event(&stopped(Some(8)));
    for motion in [Motion::Next, Motion::StepIn, Motion::StepOut] {
        let step = session.drained(motion, Vec::new());
        let (request, after) = match step {
            Step::Control { request, after } => (request, after),
            other => panic!("{:?}", other),
        };
        let wanted = match motion {
            Motion::Next => Control::Next { thread_id: 8 },
            Motion::StepIn => Control::StepIn { thread_id: 8 },
            _ => Control::StepOut { thread_id: 8 },
        };
        assert_eq!(request, wanted);
        assert!(matches!(done_ok(session.control_acknowledged(after, Ok(()))), Outcome::Unit));
        assert_eq!(session.state(), SessionState::Running);
        assert_eq!(session.stopped_thread(), Some(8));
        assert_eq!(session.stopped_reason(), Some("breakpoint"));
    }
}

#[test]
fn threads_are_fetched_where_none_is_known() {
    let mut session = attached();
    let step = session.drained(Motion::StepIn, Vec::new());
    let after = match step {
        Step::Threads(after) => after,
        other => panic!("{:?}", other),
    };
    let step = session.threads_received(after, Ok(vec![thread(31), thread(32)]));
    assert!(matches!(step, Step::Control { request: Control::StepIn { thread_id: 31 }, .. }));
}

#[test]
fn pause_needs_a_running_debuggee() {
    let mut session = attached();
    assert!(is_invalid(&done_err(session.pause()), "pause", "stopped"));
    session.handle_event(&exited(0));
    assert!(is_invalid(&done_err(session.pause()), "pause", "exited"));
    let mut session = launched();
    refresh(&mut session, &[3]);
    let after = match session.pause() {
        Step::Control { request: Control::Pause { thread_id: 3 }, after } => after,
        other => panic!("{:?}", other),
    };
    assert!(matches!(done_ok(session.control_acknowledged(after, Ok(()))), Outcome::Unit));
    assert_eq!(session.state(), SessionState::Running);
}

#[test]
fn stack_trace_makes_the_top_frame_current() {
    let mut session = attached();
    let step = session.frames_received(AfterFrames::StackTrace, Ok(frames(3)));
    assert!(matches!(done_ok(step), Outcome::Frames(list) if list.len() == 3));
    assert!(matches!(session.get_scopes(None), Step::Scopes { frame_id: 1000, locals: false }));
    let step = session.frames_received(AfterFrames::StackTrace, Ok(Vec::new()));
    assert!(matches!(done_ok(step), Outcome::Frames(list) if list.is_empty()));
    assert!(matches!(session.get_scopes(None), Step::Scopes { frame_id: 1000, .. }));
}

#[test]
fn scopes_fetch_the_top_frame() {
    let mut session = attached();
    refresh(&mut session, &[1]);
    let after = match session.get_scopes(None) {
        Step::StackTrace { thread_id: 1, levels: 1, after } => after,
        other => panic!("{:?}", other),
    };
    let step = session.frames_received(after, Ok(frames(1)));
    assert!(matches!(step, Step::Scopes { frame_id: 1000, locals: false }));
    let step = session.scopes_received(false, Ok(vec![scope("Locals", 1), scope("Globals", 2)]));
    assert!(matches!(done_ok(step), Outcome::Scopes(list) if list.len() == 2));
    // An explicit frame goes first.
    assert!(matches!(session.get_scopes(Some(5)), Step::Scopes { frame_id: 5, .. }));
}

#[test]
fn scopes_without_frames_are_an_error() {
    let mut session = attached();
    refresh(&mut session, &[1]);
    let after = match session.get_scopes(None) {
        Step::StackTrace { after, .. } => after,
        other => panic!("{:?}", other),
    };
    match done_err(session.frames_received(after, Ok(Vec::new()))) {
        Error::Internal(message) => assert_eq!(message, "No stack frames available"),
        other => panic!("{:?}", other),
    }
}

#[test]
fn expressions_do_without_a_frame() {
    let mut session = attached();
    refresh(&mut session, &[1]);
    let after = match session.evaluate("1 + 1", None, "watch") {
        Step::StackTrace { levels: 1, after, .. } => after,
        other => panic!("{:?}", other),
    };
    match session.frames_received(after, Ok(Vec::new())) {
        Step::Evaluate { expression, frame_id, context } => {
            assert_eq!(expression, "1 + 1");
            assert_eq!(frame_id, None);
            assert_eq!(context, "watch");
        }
        other => panic!("{:?}", other),
    }
    assert!(matches!(
        session.evaluate("x", Some(3), "repl"),
        Step::Evaluate { frame_id: Some(3), .. }
    ));
    let body = EvaluateResponseBody {
        result: "2".to_string(),
        kind: Some("int".to_string()),
        variables_reference: 0,
    };
    assert!(matches!(
        done_ok(session.evaluated(Ok(body))),
        Outcome::Evaluation(body) if body.result == "2"
    ));
}

#[test]
fn locals_prefer_the_scope_named_for_them() {
    let session = attached();
    let step = session.scopes_received(
        true,
        Ok(vec![scope("Globals", 1), scope("Local", 2), scope("Locals", 3)]),
    );
    assert!(matches!(step, Step::Variables { reference: 2 }));
    let step = session.scopes_received(true, Ok(vec![scope("Globals", 1), scope("Locals", 3)]));
    assert!(matches!(step, Step::Variables { reference: 3 }));
    let step = session.scopes_received(true, Ok(vec![scope("locals", 1), scope("Registers", 4)]));
    assert!(matches!(step, Step::Variables { reference: 1 }));
    let step = session.scopes_received(true, Ok(Vec::new()));
    assert!(matches!(done_ok(step), Outcome::Variables(list) if list.is_empty()));
    assert!(matches!(session.get_locals(Some(6)), Step::Scopes { frame_id: 6, locals: true }));
    let variable = Variable {
        name: "x".to_string(),
        value: "1".to_string(),
        kind: None,
        variables_reference: 0,
    };
    let step = session.variables_received(Ok(vec![variable]));
    assert!(matches!(done_ok(step), Outcome::Variables(list) if list[0].name == "x"));
}

#[test]
fn frames_are_selected_from_the_cache() {
    let mut session = attached();
    refresh(&mut session, &[1]);
    let after = match session.select_frame(1) {
        Step::StackTrace { thread_id: 1, levels: 20, after } => after,
        other => panic!("{:?}", other),
    };
    let step = session.frames_received(after, Ok(frames(4)));
    assert!(matches!(done_ok(step), Outcome::Frame(frame) if frame.id == 1001));
    assert!(matches!(done_ok(session.select_frame(3)), Outcome::Frame(frame) if frame.id == 1003));
    assert_eq!(session.get_current_frame_index(), 3);
    assert!(matches!(session.get_scopes(None), Step::Scopes { frame_id: 1003, .. }));
}

#[test]
fn up_and_down_lead_back() {
    let mut session = attached();
    let step = session.frames_received(AfterFrames::SelectFrame { index: 0 }, Ok(frames(3)));
    assert!(matches!(done_ok(step), Outcome::Frame(frame) if frame.id == 1000));
    assert!(matches!(done_ok(session.frame_up()), Outcome::Frame(frame) if frame.id == 1001));
    assert_eq!(session.get_current_frame_index(), 1);
    assert!(matches!(done_ok(session.frame_down()), Outcome::Frame(frame) if frame.id == 1000));
    assert_eq!(session.get_current_frame_index(), 0);
    let error = done_err(session.frame_down());
    assert!(is_invalid(&error, "frame down", "already at innermost frame"));
}

#[test]
fn far_frames_are_asked_for_and_may_be_missing() {
    let mut session = attached();
    refresh(&mut session, &[1]);
    assert!(matches!(session.select_frame(18), Step::StackTrace { levels: 20, .. }));
    assert!(matches!(session.select_frame(19), Step::StackTrace { levels: 20, .. }));
    let after = match session.select_frame(41) {
        Step::StackTrace { levels: 42, after, .. } => after,
        other => panic!("{:?}", other),
    };
    let step = session.frames_received(after, Ok(frames(10)));
    assert!(matches!(done_err(step), Error::FrameNotFound(41)));
    assert_eq!(session.get_current_frame_index(), 0);
    // The frames that did come are at hand all the same.
    assert!(matches!(done_ok(session.select_frame(9)), Outcome::Frame(frame) if frame.id == 1009));
}

#[test]
fn selecting_a_thread_resets_frames() {
    let mut session = attached();
    refresh(&mut session, &[1, 2]);
    let step = session.frames_received(AfterFrames::SelectFrame { index: 2 }, Ok(frames(3)));
    assert!(matches!(done_ok(step), Outcome::Frame(_)));
    assert!(session.select_thread(2).is_ok());
    assert_eq!(session.get_current_frame_index(), 0);
    assert!(matches!(session.get_scopes(None), Step::StackTrace { thread_id: 2, levels: 1, .. }));
}

#[test]
fn detaching_keeps_the_debuggee() {
    let mut session = launched();
    let after = match session.detach() {
        Step::Control { request: Control::Disconnect { terminate_debuggee: false }, after } => after,
        other => panic!("{:?}", other),
    };
    assert_eq!(session.state(), SessionState::Terminating);
    assert!(matches!(done_ok(session.control_acknowledged(after, Ok(()))), Outcome::Unit));
    assert!(is_invalid(&done_err(session.next()), "inspect", "terminating"));
}

#[test]
fn stopping_takes_down_what_was_launched() {
    let mut session = launched();
    let after = match session.stop() {
        Step::Control { request: Control::Disconnect { terminate_debuggee: true }, after } => after,
        other => panic!("{:?}", other),
    };
    let after = match session.control_acknowledged(after, Ok(())) {
        Step::Control { request: Control::Terminate, after } => after,
        other => panic!("{:?}", other),
    };
    assert!(matches!(done_ok(session.control_acknowledged(after, Ok(()))), Outcome::Unit));
    assert_eq!(session.state(), SessionState::Terminating);
    let mut session = attached();
    assert!(matches!(
        session.stop(),
        Step::Control { request: Control::Disconnect { terminate_debuggee: false }, .. }
    ));
}

#[test]
fn restart_clears_the_stop() {
    let mut session = attached();
    let step = session.frames_received(AfterFrames::SelectFrame { index: 1 }, Ok(frames(3)));
    assert!(matches!(done_ok(step), Outcome::Frame(_)));
    let after = match session.restart() {
        Step::Control { request: Control::Restart { no_debug: false }, after } => after,
        other => panic!("{:?}", other),
    };
    assert_eq!(session.state(), SessionState::Stopped);
    assert!(matches!(session.control_acknowledged(after, Ok(())), Step::Settle));
    assert_eq!(session.state(), SessionState::Running);
    assert_eq!(session.stopped_reason(), None);
    assert_eq!(session.get_current_frame_index(), 0);
    assert!(matches!(done_ok(session.settled(Ok(()))), Outcome::Unit));
}

#[test]
fn wait_for_a_stop_passes_over_other_events() {
    let mut session = launched();
    let output = Event::Output(OutputEventBody { category: None, output: "hi".to_string() });
    assert!(session.wait_stopped(5, Received::Event(output)).is_none());
    assert_eq!(session.get_output(None, false).len(), 1);
    let verdict = session.wait_stopped(5, Received::Event(stopped(Some(1))));
    assert!(matches!(verdict, Some(Ok(Event::Stopped(_)))));
    assert_eq!(session.state(), SessionState::Stopped);
    let verdict = session.wait_stopped(5, Received::Event(exited(1)));
    assert!(matches!(verdict, Some(Ok(Event::Exited(_)))));
    assert_eq!(session.state(), SessionState::Exited);
    let verdict = session.wait_stopped(5, Received::Event(terminated()));
    assert!(matches!(verdict, Some(Ok(Event::Terminated(_)))));
}

#[test]
fn wait_for_a_stop_can_fail() {
    let mut session = launched();
    assert!(matches!(
        session.wait_stopped(5, Received::Closed),
        Some(Err(Error::AdapterCrashed))
    ));
    assert!(matches!(
        session.wait_stopped(5, Received::TimedOut),
        Some(Err(Error::AwaitTimeout(5)))
    ));
    assert_eq!(session.state(), SessionState::Running);
}

#[test]
fn time_left_for_a_stop() {
    assert!(matches!(DebugSession::stop_wait_left(2, 0), Ok(2_000_000_000)));
    assert!(matches!(DebugSession::stop_wait_left(2, 1_999_999_999), Ok(1)));
    assert!(matches!(DebugSession::stop_wait_left(2, 2_000_000_000), Err(Error::AwaitTimeout(2))));
    assert!(matches!(DebugSession::stop_wait_left(0, 0), Err(Error::AwaitTimeout(0))));
    assert!(matches!(
        DebugSession::stop_wait_left(u64::MAX, 0),
        Ok(left) if left == u64::MAX as u128 * 1_000_000_000
    ));
}

#[test]
fn settling_ends_well_unless_the_connection_ends() {
    let mut session = launched();
    assert!(session.wait_settled(Received::Event(Event::Initialized)).is_none());
    assert!(matches!(session.wait_settled(Received::TimedOut), Some(Ok(()))));
    assert!(matches!(session.wait_settled(Received::Event(stopped(None))), Some(Ok(()))));
    assert_eq!(session.state(), SessionState::Stopped);
    assert!(matches!(session.wait_settled(Received::Closed), Some(Err(Error::AdapterCrashed))));
    assert_eq!(DebugSession::settle_wait_left(0), Some(150_000_000));
    assert_eq!(DebugSession::settle_wait_left(149_999_999), Some(1));
    assert_eq!(DebugSession::settle_wait_left(150_000_000), None);
}

#[test]
fn report_without_a_file_or_line_is_passed_over() {
    let mut session = attached();
    let report = Breakpoint { id: Some(1), verified: true, message: None, source: None, line: None };
    session.handle_event(&Event::Breakpoint { reason: "changed".to_string(), breakpoint: report });
    let report = Breakpoint {
        id: Some(1),
        verified: true,
        message: None,
        source: Some(Source { name: None, path: None }),
        line: Some(4),
    };
    session.handle_event(&Event::Breakpoint { reason: "changed".to_string(), breakpoint: report });
    assert!(session.list_breakpoints().is_empty());
}
