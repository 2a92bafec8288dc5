use debug_session::breakpoints::{BreakpointInfo, BreakpointLocation, BreakpointTable};
use debug_session::error::Error;
use debug_session::paths::SourcePath;
use debug_session::protocol::{Breakpoint, Capabilities, Event, Source};
use debug_session::session::DebugSession;
use debug_session::setup::{Config, Defaults, Handshake, OpeningStep, OutputLimits, Timeouts};
use debug_session::step::{AfterBreakpoints, Outcome, Step};

fn session() -> DebugSession {
    let config = Config {
        defaults: Defaults { adapter: "lldb-dap".to_string() },
        timeouts: Timeouts { dap_initialize_secs: 10, dap_request_secs: 30 },
        output: OutputLimits { max_events: 100, max_bytes_mb: 1 },
    };
    let capabilities = Capabilities {
        supports_function_breakpoints: true,
        supports_conditional_breakpoints: true,
        supports_hit_conditional_breakpoints: true,
        supports_restart_request: false,
    };
    match DebugSession::attach(&config, 1, None) {
        OpeningStep::FindAdapter { next } => {
            match (Handshake { opening: next, capabilities }).events_taken(true) {
                OpeningStep::Settle { next } => match next.settled(Ok(())) {
                    Ok(session) => session,
                    Err(error) => panic!("{:?}", error),
                },
                other => panic!("{:?}", other),
            }
        }
        other => panic!("{:?}", other),
    }
}

fn path(text: &str) -> SourcePath {
    SourcePath::new(text.to_string())
}

fn at(file: &str, line: u32) -> BreakpointLocation {
    BreakpointLocation::Line { file: path(file), line }
}

fn function(name: &str) -> BreakpointLocation {
    BreakpointLocation::Function { name: name.to_string() }
}

fn report(verified: bool, line: Option<u32>) -> Breakpoint {
    Breakpoint { id: None, verified, message: None, source: None, line }
}

fn changed(file: &str, line: u32, verified: bool, message: &str) -> Event {
    Event::Breakpoint {
        reason: "changed".to_string(),
        breakpoint: Breakpoint {
            id: Some(99),
            verified,
            message: Some(message.to_string()),
            source: Some(Source { name: None, path: Some(file.to_string()) }),
            line: Some(line),
        },
    }
}

fn after_of(step: Step) -> AfterBreakpoints {
    match step {
        Step::SetBreakpoints { after, .. } => after,
        Step::SetFunctionBreakpoints { after, .. } => after,
        other => panic!("{:?}", other),
    }
}

fn lines_of(step: &Step) -> Vec<u32> {
    match step {
        Step::SetBreakpoints { breakpoints, .. } => breakpoints.iter().map(|b| b.line).collect(),
        other => panic!("{:?}", other),
    }
}

fn names_of(step: &Step) -> Vec<String> {
    match step {
        Step::SetFunctionBreakpoints { breakpoints, .. } => {
            breakpoints.iter().map(|b| b.name.clone()).collect()
        }
        other => panic!("{:?}", other),
    }
}

fn add(session: &mut DebugSession, location: BreakpointLocation, reports: Vec<Breakpoint>) -> u32 {
    info(add_with(session, location, None, None, reports)).id
}

fn add_with(
    session: &mut DebugSession,
    location: BreakpointLocation,
    condition: Option<String>,
    hit_count: Option<u32>,
    reports: Vec<Breakpoint>,
) -> Step {
    let after = after_of(session.add_breakpoint(location, condition, hit_count));
    session.breakpoints_received(after, Ok(reports))
}

fn info(step: Step) -> BreakpointInfo {
    match step {
        Step::Done(Ok(Outcome::Info(info))) => info,
        other => panic!("{:?}", other),
    }
}

fn ids(session: &DebugSession) -> Vec<u32> {
    session.list_breakpoints().iter().map(|info| info.id).collect()
}

#[test]
fn added_line_breakpoint_is_sent_and_shown() {
    let mut session = session();
    let step = session.add_breakpoint(at("src/main.c", 12), Some("x > 1".to_string()), Some(305));
    match &step {
        Step::SetBreakpoints { file, breakpoints, .. } => {
            assert_eq!(file.text, "src/main.c");
            assert_eq!(breakpoints.len(), 1);
            assert_eq!(breakpoints[0].line, 12);
            assert_eq!(breakpoints[0].column, None);
            assert_eq!(breakpoints[0].condition.as_deref(), Some("x > 1"));
            assert_eq!(breakpoints[0].hit_condition.as_deref(), Some("305"));
            assert_eq!(breakpoints[0].log_message, None);
        }
        other => panic!("{:?}", other),
    }
    let mut answer = report(true, Some(14));
    answer.message = Some("moved".to_string());
    let shown = info(session.breakpoints_received(after_of(step), Ok(vec![answer])));
    assert_eq!(shown.id, 1);
    assert!(shown.verified);
    assert!(shown.enabled);
    assert_eq!(shown.source.as_deref(), Some("src/main.c"));
    assert_eq!(shown.line, Some(14));
    assert_eq!(shown.message.as_deref(), Some("moved"));
    assert_eq!(shown.condition.as_deref(), Some("x > 1"));
    assert_eq!(shown.hit_count, Some(305));
}

#[test]
fn added_function_breakpoint_is_sent_and_shown() {
    let mut session = session();
    assert_eq!(add(&mut session, function("main"), vec![report(true, Some(3))]), 1);
    let step = session.add_breakpoint(function("helper"), None, Some(0));
    match &step {
        Step::SetFunctionBreakpoints { breakpoints, .. } => {
            assert_eq!(breakpoints.len(), 2);
            assert_eq!(breakpoints[0].name, "main");
            assert_eq!(breakpoints[0].hit_condition, None);
            assert_eq!(breakpoints[1].name, "helper");
            assert_eq!(breakpoints[1].hit_condition.as_deref(), Some("0"));
        }
        other => panic!("{:?}", other),
    }
    let answer = vec![report(true, Some(3)), report(false, None)];
    let shown = info(session.breakpoints_received(after_of(step), Ok(answer)));
    assert_eq!(shown.id, 2);
    assert!(!shown.verified);
    assert_eq!(shown.source.as_deref(), Some("helper"));
    assert_eq!(shown.line, None);
}

#[test]
fn breakpoint_is_kept_where_the_adapter_fails() {
    let mut session = session();
    let after = after_of(session.add_breakpoint(at("a.c", 1), None, None));
    match session.breakpoints_received(after, Err(Error::Request("no".to_string()))) {
        Step::Done(Err(Error::Request(text))) => assert_eq!(text, "no"),
        other => panic!("{:?}", other),
    }
    assert_eq!(ids(&session), vec![1]);
    assert!(!session.list_breakpoints()[0].verified);
}

#[test]
fn numbers_are_given_out_once() {
    let mut session = session();
    assert_eq!(add(&mut session, at("a.c", 1), Vec::new()), 1);
    assert_eq!(add(&mut session, function("f"), Vec::new()), 2);
    let after = after_of(session.remove_breakpoint(2));
    assert!(matches!(
        session.breakpoints_received(after, Ok(Vec::new())),
        Step::Done(Ok(Outcome::Unit))
    ));
    assert_eq!(add(&mut session, at("a.c", 2), Vec::new()), 3);
    assert_eq!(ids(&session), vec![1, 3]);
    assert!(session.can_add_breakpoint());
}

#[test]
fn spellings_of_a_path_name_the_same_file() {
    let mut session = session();
    assert_eq!(add(&mut session, at("src/a.c", 1), Vec::new()), 1);
    let step = session.add_breakpoint(at("src//./a.c", 5), None, None);
    assert_eq!(lines_of(&step), vec![1, 5]);
    match &step {
        Step::SetBreakpoints { file, .. } => assert_eq!(file.text, "src//./a.c"),
        other => panic!("{:?}", other),
    }
    let shown = session.list_breakpoints();
    assert_eq!(shown[1].source.as_deref(), Some("src/a.c"));
    let step = session.add_breakpoint(at("src/b.c", 9), None, None);
    assert_eq!(lines_of(&step), vec![9]);
    assert_eq!(path("a//b/").key, path("a/b").key);
    assert!(path("a/b").key != path("/a/b").key);
}

#[test]
fn breakpoints_are_listed_by_file_and_functions_last() {
    let mut session = session();
    add(&mut session, at("b.c", 1), Vec::new());
    add(&mut session, function("f"), Vec::new());
    add(&mut session, at("a.c", 1), Vec::new());
    add(&mut session, at("b.c", 2), Vec::new());
    assert_eq!(ids(&session), vec![1, 4, 3, 2]);
}

#[test]
fn status_is_taken_place_by_place() {
    let mut session = session();
    add(&mut session, at("a.c", 1), vec![report(true, Some(1))]);
    add(&mut session, at("a.c", 2), vec![report(false, None), report(true, Some(3))]);
    let shown = session.list_breakpoints();
    assert!(!shown[0].verified);
    assert_eq!(shown[0].line, Some(1));
    assert!(shown[1].verified);
    assert_eq!(shown[1].line, Some(3));
    // A short answer leaves the rest as it is, a long one is cut.
    add(&mut session, at("a.c", 7), vec![report(true, Some(1))]);
    let shown = session.list_breakpoints();
    assert!(shown[0].verified && shown[1].verified && !shown[2].verified);
    let answer = vec![report(true, None), report(true, None), report(true, None), report(true, None)];
    let after = after_of(session.enable_breakpoint(3));
    session.breakpoints_received(after, Ok(answer));
    assert!(session.list_breakpoints()[2].verified);
    assert_eq!(session.list_breakpoints().len(), 3);
}

#[test]
fn disabled_breakpoints_are_not_sent() {
    let mut session = session();
    add(&mut session, at("a.c", 1), Vec::new());
    add(&mut session, at("a.c", 2), Vec::new());
    add(&mut session, function("f"), Vec::new());
    let step = session.disable_breakpoint(1);
    assert_eq!(lines_of(&step), vec![2]);
    assert!(matches!(
        session.breakpoints_received(after_of(step), Ok(vec![report(true, None)])),
        Step::Done(Ok(Outcome::Unit))
    ));
    let shown = session.list_breakpoints();
    assert!(!shown[0].enabled);
    assert!(!shown[0].verified);
    assert!(shown[1].enabled);
    assert!(shown[1].verified);
    let step = session.disable_breakpoint(3);
    assert!(names_of(&step).is_empty());
    let step = session.enable_breakpoint(1);
    assert_eq!(lines_of(&step), vec![1, 2]);
    assert!(session.list_breakpoints()[0].enabled);
    let step = session.enable_breakpoint(3);
    assert_eq!(names_of(&step), vec!["f".to_string()]);
}

#[test]
fn answers_pass_over_disabled_breakpoints() {
    let mut session = session();
    add(&mut session, at("a.c", 10), vec![report(false, None)]);
    let after = after_of(session.disable_breakpoint(1));
    session.breakpoints_received(after, Ok(Vec::new()));
    // Only the new one is sent, so the only report is about it.
    let step = session.add_breakpoint(at("a.c", 20), None, None);
    assert_eq!(lines_of(&step), vec![20]);
    let answer = vec![report(true, Some(20))];
    let shown = info(session.breakpoints_received(after_of(step), Ok(answer)));
    assert_eq!(shown.id, 2);
    assert!(shown.verified);
    assert_eq!(shown.line, Some(20));
    let first = &session.list_breakpoints()[0];
    assert!(!first.verified);
    assert_eq!(first.line, Some(10));
    // A disabled one in the middle keeps what it had.
    let step = session.add_breakpoint(at("a.c", 30), None, None);
    let answer = vec![report(true, Some(21)), report(true, Some(31))];
    session.breakpoints_received(after_of(step), Ok(answer));
    let step = session.disable_breakpoint(2);
    assert_eq!(lines_of(&step), vec![30]);
    session.breakpoints_received(after_of(step), Ok(vec![report(false, Some(33))]));
    let shown = session.list_breakpoints();
    assert!(shown[1].verified);
    assert_eq!(shown[1].line, Some(21));
    assert!(!shown[2].verified);
    assert_eq!(shown[2].line, Some(33));
}

#[test]
fn function_answers_go_place_by_place() {
    let mut session = session();
    add(&mut session, function("f"), vec![report(false, None)]);
    let after = after_of(session.disable_breakpoint(1));
    session.breakpoints_received(after, Ok(Vec::new()));
    let step = session.add_breakpoint(function("g"), None, None);
    assert_eq!(names_of(&step), vec!["g".to_string()]);
    let shown = info(session.breakpoints_received(after_of(step), Ok(vec![report(true, Some(5))])));
    assert_eq!(shown.id, 2);
    assert!(!shown.verified);
    assert_eq!(shown.line, None);
    let shown = session.list_breakpoints();
    assert!(shown[0].verified);
    assert_eq!(shown[0].line, Some(5));
    let answer = vec![report(false, None), report(true, Some(6)), report(true, Some(7))];
    session.update_function_breakpoint_status(&answer);
    let shown = session.list_breakpoints();
    assert!(!shown[0].verified);
    assert!(shown[1].verified);
    assert_eq!(shown[1].line, Some(6));
}

#[test]
fn status_is_updated_for_the_breakpoint_that_was_sent() {
    let mut session = session();
    add(&mut session, at("a.c", 10), Vec::new());
    add(&mut session, at("a.c", 20), Vec::new());
    session.disable_breakpoint(1);
    session.update_source_breakpoint_status(&path("a.c"), &vec![report(true, Some(20))]);
    let shown = session.list_breakpoints();
    assert!(!shown[0].verified);
    assert_eq!(shown[0].line, Some(10));
    assert!(shown[1].verified);
    assert_eq!(shown[1].line, Some(20));
}

#[test]
fn unknown_breakpoints_are_refused() {
    let mut session = session();
    add(&mut session, at("a.c", 1), Vec::new());
    for step in [
        session.enable_breakpoint(9),
        session.disable_breakpoint(9),
        session.remove_breakpoint(9),
    ] {
        assert!(matches!(step, Step::Done(Err(Error::BreakpointNotFound { id: 9 }))));
    }
    assert!(matches!(
        session.get_breakpoint_info(0),
        Err(Error::BreakpointNotFound { id: 0 })
    ));
    assert_eq!(ids(&session), vec![1]);
}

#[test]
fn removed_breakpoint_is_gone() {
    let mut session = session();
    add(&mut session, at("a.c", 1), Vec::new());
    add(&mut session, at("a.c", 2), Vec::new());
    add(&mut session, function("f"), Vec::new());
    add(&mut session, function("g"), Vec::new());
    let step = session.remove_breakpoint(1);
    assert_eq!(lines_of(&step), vec![2]);
    // The answer is not looked at.
    session.breakpoints_received(after_of(step), Ok(vec![report(true, Some(40))]));
    assert_eq!(ids(&session), vec![2, 3, 4]);
    assert!(!session.list_breakpoints()[0].verified);
    let step = session.remove_breakpoint(2);
    assert!(lines_of(&step).is_empty());
    let step = session.remove_breakpoint(3);
    assert_eq!(names_of(&step), vec!["g".to_string()]);
    assert_eq!(ids(&session), vec![4]);
    assert!(session.get_breakpoint_info(3).is_err());
    assert!(session.get_breakpoint_info(4).is_ok());
}

#[test]
fn all_breakpoints_are_removed_file_by_file() {
    let mut session = session();
    add(&mut session, at("a.c", 1), Vec::new());
    add(&mut session, at("b.c", 1), Vec::new());
    add(&mut session, function("f"), Vec::new());
    let step = session.remove_all_breakpoints();
    assert!(matches!(&step, Step::SetBreakpoints { file, .. } if file.text == "a.c"));
    assert!(lines_of(&step).is_empty());
    let step = session.breakpoints_received(after_of(step), Ok(Vec::new()));
    assert!(matches!(&step, Step::SetBreakpoints { file, .. } if file.text == "b.c"));
    assert_eq!(ids(&session).len(), 3);
    let step = session.breakpoints_received(after_of(step), Ok(Vec::new()));
    assert!(names_of(&step).is_empty());
    assert_eq!(ids(&session), vec![3]);
    let step = session.breakpoints_received(after_of(step), Ok(Vec::new()));
    assert!(matches!(step, Step::Done(Ok(Outcome::Unit))));
    assert!(ids(&session).is_empty());
    assert_eq!(add(&mut session, function("g"), Vec::new()), 4);
}

#[test]
fn refused_removal_keeps_all_breakpoints() {
    let mut session = session();
    add(&mut session, at("a.c", 1), Vec::new());
    add(&mut session, at("b.c", 1), Vec::new());
    let step = session.remove_all_breakpoints();
    let step = session.breakpoints_received(after_of(step), Ok(Vec::new()));
    let step = session.breakpoints_received(after_of(step), Err(Error::AdapterCrashed));
    assert!(matches!(step, Step::Done(Err(Error::AdapterCrashed))));
    assert_eq!(ids(&session), vec![1, 2]);
}

#[test]
fn reports_change_the_first_breakpoint_on_the_line() {
    let mut session = session();
    add(&mut session, at("src/a.c", 10), vec![report(false, Some(12))]);
    add(&mut session, at("src/a.c", 12), vec![report(false, Some(12)), report(false, None)]);
    session.handle_event(&changed("src//a.c", 12, true, "resolved"));
    let shown = session.list_breakpoints();
    assert!(shown[0].verified);
    assert_eq!(shown[0].line, Some(12));
    assert_eq!(shown[0].message.as_deref(), Some("resolved"));
    assert!(!shown[1].verified);
    // Another file or another line matches nothing.
    session.handle_event(&changed("src/b.c", 12, false, "other"));
    session.handle_event(&changed("src/a.c", 11, false, "other"));
    assert!(session.list_breakpoints()[0].verified);
    // Neither does a report without a number.
    let event = Event::Breakpoint {
        reason: "changed".to_string(),
        breakpoint: Breakpoint {
            id: None,
            verified: false,
            message: None,
            source: Some(Source { name: None, path: Some("src/a.c".to_string()) }),
            line: Some(12),
        },
    };
    session.handle_event(&event);
    assert!(session.list_breakpoints()[0].verified);
}

#[test]
fn removing_undoes_adding() {
    let mut session = session();
    add(&mut session, at("a.c", 1), vec![report(true, Some(2))]);
    add(&mut session, function("f"), Vec::new());
    let before = format!("{:?}", session.list_breakpoints());
    for location in [at("a.c", 9), at("new.c", 1), function("g")] {
        let id = match session.add_breakpoint(location, None, None) {
            Step::SetBreakpoints { after: AfterBreakpoints::Added { id, .. }, .. } => id,
            Step::SetFunctionBreakpoints { after: AfterBreakpoints::Added { id, .. }, .. } => id,
            other => panic!("{:?}", other),
        };
        assert!(format!("{:?}", session.list_breakpoints()) != before);
        session.remove_breakpoint(id);
        assert_eq!(format!("{:?}", session.list_breakpoints()), before);
    }
}

#[test]
fn switching_back_changes_nothing() {
    let mut session = session();
    add(&mut session, at("a.c", 1), vec![report(true, Some(2))]);
    add(&mut session, function("f"), Vec::new());
    let before = format!("{:?}", session.list_breakpoints());
    for id in [1, 2] {
        session.disable_breakpoint(id);
        assert!(format!("{:?}", session.list_breakpoints()) != before);
        session.enable_breakpoint(id);
        assert_eq!(format!("{:?}", session.list_breakpoints()), before);
    }
}

#[test]
fn reports_keep_what_was_asked_for() {
    let mut session = session();
    let step = add_with(
        &mut session,
        at("a.c", 10),
        Some("n == 2".to_string()),
        Some(4),
        vec![report(false, None)],
    );
    assert_eq!(info(step).id, 1);
    session.disable_breakpoint(1);
    session.handle_event(&changed("a.c", 10, true, "here"));
    let shown = &session.list_breakpoints()[0];
    assert_eq!(shown.id, 1);
    assert!(shown.verified);
    assert!(!shown.enabled);
    assert_eq!(shown.condition.as_deref(), Some("n == 2"));
    assert_eq!(shown.hit_count, Some(4));
    assert_eq!(shown.source.as_deref(), Some("a.c"));
}

#[test]
fn table_stands_by_itself() {
    let mut table = BreakpointTable::new();
    assert_eq!(table.next_id(), 1);
    assert_eq!(table.add(at("a.c", 3), None, None), 1);
    assert_eq!(table.add(at("b.c", 4), None, None), 2);
    assert_eq!(table.files().len(), 2);
    table.take_line_answer(&path("b.c"), &vec![report(true, Some(5))]);
    table.take_line_answer(&path("c.c"), &vec![report(true, Some(5))]);
    assert!(matches!(table.info(2), Ok(info) if info.verified && info.line == Some(5)));
    assert!(matches!(table.info(1), Ok(info) if !info.verified && info.line == Some(3)));
    assert!(table.line_requests(&path("c.c")).is_empty());
    table.clear_lines();
    assert!(table.list().is_empty());
    table.add(function("f"), None, None);
    table.clear_functions();
    assert!(table.function_requests().is_empty());
    assert_eq!(table.next_id(), 4);
}
