use debug_session::breakpoints::BreakpointLocation;
use debug_session::error::Error;
use debug_session::paths::SourcePath;
use debug_session::protocol::{Capabilities, Event, StoppedEventBody};
use debug_session::session::DebugSession;
use debug_session::setup::{
    build_launch_arguments, typescript_source, AdapterConfig, Config, Defaults, Handshake,
    LaunchArguments, Opening, OpeningStep, OutputLimits, Pending, Plan, Settling, Timeouts, TransportMode,
};
use debug_session::state::SessionState;
use debug_session::step::Received;

fn config() -> Config {
    Config {
        defaults: Defaults { adapter: "lldb-dap".to_string() },
        timeouts: Timeouts { dap_initialize_secs: 10, dap_request_secs: 30 },
        output: OutputLimits { max_events: 100, max_bytes_mb: 2 },
    }
}

fn capabilities() -> Capabilities {
    Capabilities {
        supports_function_breakpoints: true,
        supports_conditional_breakpoints: true,
        supports_hit_conditional_breakpoints: true,
        supports_restart_request: true,
    }
}

fn adapter(transport: TransportMode) -> AdapterConfig {
    AdapterConfig {
        path: "/usr/bin/adapter".to_string(),
        args: vec!["--dap".to_string()],
        transport,
        spawn_style: "tcp-listen".to_string(),
    }
}

fn line(file: &str, line: u32) -> Option<BreakpointLocation> {
    Some(BreakpointLocation::Line { file: SourcePath::new(file.to_string()), line })
}

fn function(name: &str) -> Option<BreakpointLocation> {
    Some(BreakpointLocation::Function { name: name.to_string() })
}

fn launch(
    program: &str,
    adapter_name: &str,
    initial_breakpoints: Vec<Option<BreakpointLocation>>,
) -> Opening {
    let step = DebugSession::launch(
        &config(),
        program,
        vec!["--flag".to_string()],
        Some(adapter_name.to_string()),
        true,
        initial_breakpoints,
    );
    match step {
        OpeningStep::FindAdapter { next } => next,
        other => panic!("{:?}", other),
    }
}

fn attach() -> Opening {
    match DebugSession::attach(&config(), 42, None) {
        OpeningStep::FindAdapter { next } => next,
        other => panic!("{:?}", other),
    }
}

fn initialized(opening: Opening) -> OpeningStep {
    opening.initialized(Ok(capabilities()))
}

fn handshake(opening: Opening) -> Handshake {
    Handshake { opening, capabilities: capabilities() }
}

fn failure(step: OpeningStep) -> Error {
    match step {
        OpeningStep::Failed(error) => error,
        other => panic!("{:?}", other),
    }
}

fn refused() -> Error {
    Error::Request("refused".to_string())
}

fn is_refused(step: OpeningStep) -> bool {
    matches!(failure(step), Error::Request(text) if text == "refused")
}

fn arguments(adapter_name: &str, typescript: bool) -> LaunchArguments {
    build_launch_arguments(
        &adapter_name.to_string(),
        "/bin/prog",
        &vec!["a".to_string(), "b".to_string()],
        true,
        Some("/work".to_string()),
        typescript,
    )
}

#[test]
fn opening_follows_the_config() {
    let opening = attach();
    assert_eq!(opening.adapter_name, "lldb-dap");
    assert_eq!(opening.initialize_secs, 10);
    assert_eq!(opening.request_secs, 30);
    assert_eq!(opening.max_events, 100);
    assert_eq!(opening.max_bytes_mb, 2);
    assert!(matches!(opening.plan, Plan::Attach { pid: 42 }));
    let opening = launch("/bin/prog", "gdb", Vec::new());
    assert_eq!(opening.adapter_name, "gdb");
}

#[test]
fn missing_adapter_is_reported() {
    let opening = launch("/bin/prog", "nope", Vec::new());
    match failure(opening.adapter_found(Err(vec!["nope-dap".to_string()]))) {
        Error::AdapterNotFound { name, searched } => {
            assert_eq!(name, "nope");
            assert_eq!(searched, vec!["nope-dap".to_string()]);
        }
        other => panic!("{:?}", other),
    }
}

#[test]
fn adapter_is_started_by_its_transport() {
    match attach().adapter_found(Ok(adapter(TransportMode::Stdio))) {
        OpeningStep::Spawn { path, args, .. } => {
            assert_eq!(path, "/usr/bin/adapter");
            assert_eq!(args, vec!["--dap".to_string()]);
        }
        other => panic!("{:?}", other),
    }
    match attach().adapter_found(Ok(adapter(TransportMode::Tcp))) {
        OpeningStep::SpawnTcp { path, spawn_style, .. } => {
            assert_eq!(path, "/usr/bin/adapter");
            assert_eq!(spawn_style, "tcp-listen");
        }
        other => panic!("{:?}", other),
    }
    assert!(matches!(
        attach().spawned(Ok(())),
        OpeningStep::Initialize { timeout_secs: 10, .. }
    ));
}

#[test]
fn every_failure_ends_the_opening() {
    assert!(is_refused(attach().spawned(Err(refused()))));
    assert!(is_refused(attach().initialized(Err(refused()))));
    assert!(is_refused(handshake(attach()).started(Err(refused()))));
    assert!(is_refused(handshake(attach()).ready(Err(refused()))));
    assert!(is_refused(handshake(attach()).configured(Err(refused()))));
    match failure(handshake(attach()).events_taken(false)) {
        Error::Internal(message) => assert_eq!(message, "Failed to get event receiver"),
        other => panic!("{:?}", other),
    }
}

#[test]
fn typescript_sibling_is_looked_for_beside_javascript() {
    match initialized(launch("dist/app.js", "js-debug", Vec::new())) {
        OpeningStep::Inspect { sibling, .. } => {
            assert_eq!(sibling.as_deref(), Some("dist/app.ts"));
        }
        other => panic!("{:?}", other),
    }
    for program in ["app.ts", "app", ".js", "app.js.map", "dir.js/app"] {
        match initialized(launch(program, "js-debug", Vec::new())) {
            OpeningStep::Inspect { sibling, .. } => assert_eq!(sibling, None),
            other => panic!("{:?}", other),
        }
    }
}

#[test]
fn typescript_needs_the_extension_or_the_sibling() {
    assert!(typescript_source(&Some("ts".to_string()), false));
    assert!(typescript_source(&Some("js".to_string()), true));
    assert!(!typescript_source(&Some("js".to_string()), false));
    assert!(!typescript_source(&Some("tsx".to_string()), true));
    assert!(!typescript_source(&None, true));
}

#[test]
fn source_maps_follow_the_program() {
    for (program, exists, wanted) in [
        ("src/app.ts", false, Some(true)),
        ("dist/app.js", true, Some(true)),
        ("dist/app.js", false, None),
        ("dist/app", true, None),
    ] {
        match handshake(launch(program, "js-debug", Vec::new())).start(None, exists) {
            OpeningStep::Launch { arguments, wait, .. } => {
                assert_eq!(arguments.source_maps, wanted);
                assert!(wait);
            }
            other => panic!("{:?}", other),
        }
    }
}

#[test]
fn launch_arguments_for_python() {
    let arguments = arguments("debugpy", true);
    assert_eq!(arguments.program, "/bin/prog");
    assert_eq!(arguments.args, vec!["a".to_string(), "b".to_string()]);
    assert_eq!(arguments.cwd.as_deref(), Some("/work"));
    assert!(arguments.stop_on_entry);
    assert_eq!(arguments.request.as_deref(), Some("launch"));
    assert_eq!(arguments.console.as_deref(), Some("internalConsole"));
    assert_eq!(arguments.python, None);
    assert_eq!(arguments.just_my_code, Some(true));
    assert_eq!(arguments.mode, None);
    assert_eq!(arguments.stop_at_entry, None);
    assert_eq!(arguments.stop_at_beginning_of_main_subprogram, None);
    assert_eq!(arguments.type_attr, None);
    assert_eq!(arguments.source_maps, None);
}

#[test]
fn launch_arguments_for_go() {
    for name in ["go", "delve", "dlv"] {
        let arguments = arguments(name, false);
        assert_eq!(arguments.mode.as_deref(), Some("exec"));
        assert_eq!(arguments.stop_at_entry, Some(true));
        assert_eq!(arguments.request, None);
        let relaxed =
            build_launch_arguments(&name.to_string(), "p", &Vec::new(), false, None, false);
        assert_eq!(relaxed.mode.as_deref(), Some("exec"));
        assert_eq!(relaxed.stop_at_entry, None);
    }
}

#[test]
fn launch_arguments_for_gdb_and_javascript() {
    for name in ["gdb", "cuda-gdb"] {
        let arguments = arguments(name, true);
        assert_eq!(arguments.stop_at_beginning_of_main_subprogram, Some(true));
        assert_eq!(arguments.stop_at_entry, None);
        assert_eq!(arguments.source_maps, None);
    }
    let arguments = arguments("js-debug", true);
    assert_eq!(arguments.type_attr.as_deref(), Some("pwa-node"));
    assert_eq!(arguments.source_maps, Some(true));
    assert_eq!(arguments.stop_at_beginning_of_main_subprogram, None);
}

#[test]
fn launch_arguments_for_plain_adapters() {
    let arguments = arguments("lldb-dap", true);
    assert_eq!(arguments.env, None);
    assert_eq!(arguments.init_commands, None);
    assert_eq!(arguments.pre_run_commands, None);
    assert_eq!(arguments.request, None);
    assert_eq!(arguments.console, None);
    assert_eq!(arguments.just_my_code, None);
    assert_eq!(arguments.mode, None);
    assert_eq!(arguments.stop_at_entry, None);
    assert_eq!(arguments.stop_at_beginning_of_main_subprogram, None);
    assert_eq!(arguments.type_attr, None);
    assert_eq!(arguments.source_maps, None);
    assert_eq!(arguments.out_files, None);
    assert_eq!(arguments.runtime_executable, None);
    assert_eq!(arguments.runtime_args, None);
    assert_eq!(arguments.skip_files, None);
}

#[test]
fn python_launch_is_not_waited_for() {
    match handshake(launch("app.py", "debugpy", Vec::new())).start(None, false) {
        OpeningStep::Launch { wait, arguments, .. } => {
            assert!(!wait);
            assert_eq!(arguments.cwd, None);
        }
        other => panic!("{:?}", other),
    }
}

#[test]
fn attaching_goes_straight_to_the_process() {
    match initialized(attach()) {
        OpeningStep::Attach { arguments, next } => {
            assert_eq!(arguments.pid, 42);
            assert_eq!(arguments.wait_for, None);
            assert!(matches!(
                next.started(Ok(())),
                OpeningStep::WaitInitialized { timeout_secs: 30, .. }
            ));
        }
        other => panic!("{:?}", other),
    }
    assert!(matches!(
        handshake(attach()).ready(Ok(())),
        OpeningStep::ConfigurationDone { .. }
    ));
}

fn settling(step: OpeningStep) -> Settling {
    match step {
        OpeningStep::Settle { next } => next,
        other => panic!("{:?}", other),
    }
}

#[test]
fn opening_ends_with_settling() {
    let stop = Event::Stopped(StoppedEventBody {
        reason: "entry".to_string(),
        thread_id: Some(1),
        hit_breakpoint_ids: Vec::new(),
    });
    let opening = launch("/bin/prog", "lldb-dap", Vec::new());
    let mut next = settling(handshake(opening).events_taken(true));
    assert!(next.wait_settled(Received::Event(Event::Initialized)).is_none());
    let result = match next.wait_settled(Received::Event(stop)) {
        Some(result) => result,
        None => panic!("the debuggee has stopped"),
    };
    match next.settled(result) {
        Ok(session) => {
            assert_eq!(session.state(), SessionState::Stopped);
            assert_eq!(session.stopped_reason(), Some("entry"));
        }
        Err(error) => panic!("{:?}", error),
    }
}

#[test]
fn opening_fails_where_the_connection_ends_while_settling() {
    let mut next = settling(handshake(attach()).events_taken(true));
    let result = match next.wait_settled(Received::Closed) {
        Some(result) => result,
        None => panic!("the connection has ended"),
    };
    assert!(matches!(next.settled(result), Err(Error::AdapterCrashed)));
    let mut next = settling(handshake(attach()).events_taken(true));
    assert!(matches!(next.wait_settled(Received::TimedOut), Some(Ok(()))));
    assert!(next.settled(Ok(())).is_ok());
}

#[test]
fn oversized_limit_is_no_matter_before_the_session_is_made() {
    let mut config = config();
    config.output.max_bytes_mb = usize::MAX;
    match DebugSession::attach(&config, 1, None) {
        OpeningStep::FindAdapter { next } => {
            assert!(matches!(
                failure(next.adapter_found(Err(Vec::new()))),
                Error::AdapterNotFound { .. }
            ));
        }
        other => panic!("{:?}", other),
    }
}

fn pending(step: OpeningStep) -> Pending {
    match step {
        OpeningStep::SetBreakpoints { next, .. } => next,
        OpeningStep::SetFunctionBreakpoints { next, .. } => next,
        other => panic!("{:?}", other),
    }
}

#[test]
fn initial_breakpoints_are_sent_before_the_configuration_ends() {
    let locations = vec![
        line("b.c", 3),
        function("main"),
        None,
        line("a.c", 1),
        line("./b.c", 9),
        line("b.c/", 4),
        function("helper"),
    ];
    let step = handshake(launch("/bin/prog", "lldb-dap", locations)).ready(Ok(()));
    match &step {
        OpeningStep::SetBreakpoints { file, breakpoints, .. } => {
            assert_eq!(file.text, "b.c");
            let lines: Vec<u32> = breakpoints.iter().map(|b| b.line).collect();
            assert_eq!(lines, vec![3, 4]);
            assert_eq!(breakpoints[0].condition, None);
            assert_eq!(breakpoints[0].hit_condition, None);
        }
        other => panic!("{:?}", other),
    }
    let step = pending(step).breakpoints_set(Err(refused()));
    assert!(matches!(&step, OpeningStep::SetBreakpoints { file, .. } if file.text == "a.c"));
    let step = pending(step).breakpoints_set(Ok(Vec::new()));
    assert!(matches!(&step, OpeningStep::SetBreakpoints { file, .. } if file.text == "./b.c"));
    let step = pending(step).breakpoints_set(Ok(Vec::new()));
    match &step {
        OpeningStep::SetFunctionBreakpoints { breakpoints, .. } => {
            let names: Vec<&str> = breakpoints.iter().map(|b| b.name.as_str()).collect();
            assert_eq!(names, vec!["main", "helper"]);
        }
        other => panic!("{:?}", other),
    }
    let step = pending(step).breakpoints_set(Err(refused()));
    let next = match step {
        OpeningStep::ConfigurationDone { next } => next,
        other => panic!("{:?}", other),
    };
    let next = match next.configured(Ok(())) {
        OpeningStep::TakeEvents { next } => next,
        other => panic!("{:?}", other),
    };
    match settling(next.events_taken(true)).settled(Ok(())) {
        Ok(session) => {
            assert_eq!(session.state(), SessionState::Running);
            assert_eq!(session.program(), "/bin/prog");
            assert!(session.list_breakpoints().is_empty());
        }
        Err(error) => panic!("{:?}", error),
    }
}
