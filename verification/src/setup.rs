//! How a session comes about: an adapter is found and started, told what to debug, given the
//! breakpoints that have to be there from the start, and then let go.

use crate::breakpoints::BreakpointLocation;
use crate::error::{Error, ErrorView};
use crate::paths::SourcePath;
use crate::protocol::{Breakpoint, Capabilities, FunctionBreakpoint, SourceBreakpoint};
use crate::session::DebugSession;
use crate::state::{SessionState, SessionView};
use crate::step::Received;
use vstd::prelude::*;

verus! {

/// How an adapter is talked to.
#[derive(Debug, Clone, Copy, PartialEq, Eq, Structural)]
pub enum TransportMode {
    Stdio,
    Tcp,
}

/// How an adapter is started.
#[derive(Debug)]
pub struct AdapterConfig {
    pub path: String,
    pub args: Vec<String>,
    pub transport: TransportMode,
    pub spawn_style: String,
}

/// What is taken where the user asks for nothing else.
#[derive(Debug)]
pub struct Defaults {
    pub adapter: String,
}

/// How long the adapter may take.
#[derive(Debug)]
pub struct Timeouts {
    pub dap_initialize_secs: u64,
    pub dap_request_secs: u64,
}

/// How much output is kept.
#[derive(Debug)]
pub struct OutputLimits {
    pub max_events: usize,
    pub max_bytes_mb: usize,
}

/// What a session is set up by.
#[derive(Debug)]
pub struct Config {
    pub defaults: Defaults,
    pub timeouts: Timeouts,
    pub output: OutputLimits,
}

/// How the adapter is told what to launch. The fields past `stop_on_entry` each concern one
/// adapter, and are left out for the others.
#[derive(Debug)]
pub struct LaunchArguments {
    pub program: String,
    pub args: Vec<String>,
    pub cwd: Option<String>,
    pub env: Option<Vec<(String, String)>>,
    pub stop_on_entry: bool,
    pub init_commands: Option<Vec<String>>,
    pub pre_run_commands: Option<Vec<String>>,
    pub request: Option<String>,
    pub console: Option<String>,
    pub python: Option<String>,
    pub just_my_code: Option<bool>,
    pub mode: Option<String>,
    pub stop_at_entry: Option<bool>,
    pub stop_at_beginning_of_main_subprogram: Option<bool>,
    pub type_attr: Option<String>,
    pub source_maps: Option<bool>,
    pub out_files: Option<Vec<String>>,
    pub runtime_executable: Option<String>,
    pub runtime_args: Option<Vec<String>>,
    pub skip_files: Option<Vec<String>>,
}

/// The contents of [`LaunchArguments`].
#[verifier::ext_equal]
pub struct LaunchArgumentsView {
    pub program: Seq<char>,
    pub args: Seq<Seq<char>>,
    pub cwd: Option<Seq<char>>,
    pub env: Option<Vec<(String, String)>>,
    pub stop_on_entry: bool,
    pub init_commands: Option<Vec<String>>,
    pub pre_run_commands: Option<Vec<String>>,
    pub request: Option<Seq<char>>,
    pub console: Option<Seq<char>>,
    pub python: Option<Seq<char>>,
    pub just_my_code: Option<bool>,
    pub mode: Option<Seq<char>>,
    pub stop_at_entry: Option<bool>,
    pub stop_at_beginning_of_main_subprogram: Option<bool>,
    pub type_attr: Option<Seq<char>>,
    pub source_maps: Option<bool>,
    pub out_files: Option<Vec<String>>,
    pub runtime_executable: Option<Seq<char>>,
    pub runtime_args: Option<Vec<String>>,
    pub skip_files: Option<Vec<String>>,
}

/// The contents of a run of texts.
pub open spec fn texts(strings: Seq<String>) -> Seq<Seq<char>> {
    strings.map_values(|string: String| string@)
}

impl View for LaunchArguments {
    type V = LaunchArgumentsView;

    open spec fn view(&self) -> LaunchArgumentsView {
        LaunchArgumentsView {
            program: self.program@,
            args: texts(self.args@),
            cwd: crate::text::opt_text(self.cwd),
            env: self.env,
            stop_on_entry: self.stop_on_entry,
            init_commands: self.init_commands,
            pre_run_commands: self.pre_run_commands,
            request: crate::text::opt_text(self.request),
            console: crate::text::opt_text(self.console),
            python: crate::text::opt_text(self.python),
            just_my_code: self.just_my_code,
            mode: crate::text::opt_text(self.mode),
            stop_at_entry: self.stop_at_entry,
            stop_at_beginning_of_main_subprogram: self.stop_at_beginning_of_main_subprogram,
            type_attr: crate::text::opt_text(self.type_attr),
            source_maps: self.source_maps,
            out_files: self.out_files,
            runtime_executable: crate::text::opt_text(self.runtime_executable),
            runtime_args: self.runtime_args,
            skip_files: self.skip_files,
        }
    }
}

/// Whether the adapter is the one for Python.
pub open spec fn is_python(adapter_name: Seq<char>) -> bool {
    adapter_name == "debugpy"@
}

/// Whether the adapter is the one for Go.
pub open spec fn is_go(adapter_name: Seq<char>) -> bool {
    adapter_name == "go"@ || adapter_name == "delve"@ || adapter_name == "dlv"@
}

/// Whether the adapter is built on GDB.
pub open spec fn is_gdb(adapter_name: Seq<char>) -> bool {
    adapter_name == "gdb"@ || adapter_name == "cuda-gdb"@
}

/// Whether the adapter is the one for JavaScript.
pub open spec fn is_js_debug(adapter_name: Seq<char>) -> bool {
    adapter_name == "js-debug"@
}

/// The TypeScript file that `program` may have been compiled from.
pub open spec fn typescript_sibling(program: Seq<char>) -> Option<Seq<char>> {
    if crate::paths::path_extension(program) == Some("js"@) {
        Some(crate::paths::path_with_extension(program, "ts"@))
    } else {
        None
    }
}

/// Whether a program with that extension is written in TypeScript, or compiled from a TypeScript
/// file beside it.
pub open spec fn is_typescript(extension: Option<Seq<char>>, sibling_exists: bool) -> bool {
    extension == Some("ts"@) || extension == Some("js"@) && sibling_exists
}

/// `text` where `given` holds.
pub open spec fn text_if(given: bool, text: Seq<char>) -> Option<Seq<char>> {
    if given {
        Some(text)
    } else {
        None
    }
}

/// `true` where `given` holds, and nothing where it does not.
pub open spec fn flag_if(given: bool) -> Option<bool> {
    if given {
        Some(true)
    } else {
        None
    }
}

/// How the adapter of that name is told to launch a program.
pub open spec fn launch_arguments(
    adapter_name: Seq<char>,
    program: Seq<char>,
    args: Seq<Seq<char>>,
    stop_on_entry: bool,
    cwd: Option<Seq<char>>,
    typescript: bool,
) -> LaunchArgumentsView {
    LaunchArgumentsView {
        program,
        args,
        cwd,
        env: None,
        stop_on_entry,
        init_commands: None,
        pre_run_commands: None,
        request: text_if(is_python(adapter_name), "launch"@),
        console: text_if(is_python(adapter_name), "internalConsole"@),
        python: None,
        just_my_code: flag_if(is_python(adapter_name)),
        mode: text_if(is_go(adapter_name), "exec"@),
        stop_at_entry: flag_if(is_go(adapter_name) && stop_on_entry),
        stop_at_beginning_of_main_subprogram: flag_if(is_gdb(adapter_name) && stop_on_entry),
        type_attr: text_if(is_js_debug(adapter_name), "pwa-node"@),
        source_maps: flag_if(is_js_debug(adapter_name) && typescript),
        out_files: None,
        runtime_executable: None,
        runtime_args: None,
        skip_files: None,
    }
}

/// How the adapter is told what to attach to.
#[derive(Debug)]
pub struct AttachArguments {
    pub pid: u32,
    pub wait_for: Option<bool>,
}

/// What a session is for.
#[derive(Debug)]
pub enum Plan {
    /// A program is launched. Each initial breakpoint is given by its location, or as `None`
    /// where its text named none.
    Launch {
        program: String,
        args: Vec<String>,
        stop_on_entry: bool,
        initial_breakpoints: Vec<Option<BreakpointLocation>>,
    },
    /// A process is attached to.
    Attach { pid: u32 },
}

/// A session that has yet to find and start its adapter.
#[derive(Debug)]
pub struct Opening {
    pub plan: Plan,
    pub adapter_name: String,
    pub initialize_secs: u64,
    pub request_secs: u64,
    pub max_events: usize,
    pub max_bytes_mb: usize,
}

/// A session whose adapter runs and has said what it can do.
#[derive(Debug)]
pub struct Handshake {
    pub opening: Opening,
    pub capabilities: Capabilities,
}

/// Lines of a file that are to be given breakpoints.
#[derive(Debug)]
pub struct LineGroup {
    pub path: SourcePath,
    pub lines: Vec<u32>,
}

/// The contents of a [`LineGroup`].
#[verifier::ext_equal]
pub struct LineGroupView {
    pub path: SourcePath,
    pub lines: Seq<u32>,
}

impl View for LineGroup {
    type V = LineGroupView;

    open spec fn view(&self) -> LineGroupView {
        LineGroupView { path: self.path, lines: self.lines@ }
    }
}

/// The contents of a run of [`LineGroup`]s.
pub open spec fn group_views(groups: Seq<LineGroup>) -> Seq<LineGroupView> {
    groups.map_values(|group: LineGroup| group@)
}

/// A session that has yet to give its adapter the initial breakpoints.
#[derive(Debug)]
pub struct Pending {
    pub handshake: Handshake,
    pub files: Vec<LineGroup>,
    pub functions: Vec<String>,
}

/// The contents of a [`Pending`].
#[verifier::ext_equal]
pub struct PendingView {
    pub handshake: Handshake,
    pub files: Seq<LineGroupView>,
    pub functions: Seq<Seq<char>>,
}

impl View for Pending {
    type V = PendingView;

    open spec fn view(&self) -> PendingView {
        PendingView {
            handshake: self.handshake,
            files: group_views(self.files@),
            functions: texts(self.functions@),
        }
    }
}

/// A session that is complete but for the wait for the debuggee to settle. It comes out only when
/// that wait is over.
#[derive(Debug)]
pub struct Settling {
    session: DebugSession,
}

impl View for Settling {
    type V = SessionView;

    closed spec fn view(&self) -> SessionView {
        self.session@
    }
}

/// What the wait for the debuggee to settle makes of a session: the session itself, or the error
/// where the wait failed.
pub open spec fn settled_session(session: SessionView, result: Result<(), ErrorView>) -> Result<
    SessionView,
    ErrorView,
> {
    match result {
        Ok(()) => Ok(session),
        Err(error) => Err(error),
    }
}

/// What is to be done next to open a session.
#[derive(Debug)]
#[allow(inconsistent_fields)]
pub enum OpeningStep {
    /// Nothing: the session cannot be opened.
    Failed(Error),
    /// Look up the adapter of the session's adapter name.
    FindAdapter { next: Opening },
    /// Start the adapter and talk to it over its standard streams.
    Spawn { path: String, args: Vec<String>, next: Opening },
    /// Start the adapter and talk to it over a socket.
    SpawnTcp { path: String, args: Vec<String>, spawn_style: String, next: Opening },
    /// Have the adapter of the session's adapter name say within that time what it can do.
    Initialize { timeout_secs: u64, next: Opening },
    /// Find out the working directory, and whether the file `sibling`, if any, exists.
    Inspect { sibling: Option<String>, next: Handshake },
    /// Have the adapter launch the program. Its answer is waited for where `wait` is set.
    Launch { arguments: LaunchArguments, wait: bool, next: Handshake },
    /// Have the adapter attach to the process.
    Attach { arguments: AttachArguments, next: Handshake },
    /// Wait until the adapter says that it can be configured.
    WaitInitialized { timeout_secs: u64, next: Handshake },
    /// Have the adapter set these breakpoints in the file.
    SetBreakpoints { file: SourcePath, breakpoints: Vec<SourceBreakpoint>, next: Pending },
    /// Have the adapter set these function breakpoints.
    SetFunctionBreakpoints { breakpoints: Vec<FunctionBreakpoint>, next: Pending },
    /// Tell the adapter that it is configured.
    ConfigurationDone { next: Handshake },
    /// Take over the events that the adapter reports.
    TakeEvents { next: Handshake },
    /// Wait until the debuggee has settled.
    Settle { next: Settling },
}

/// The contents of an [`OpeningStep`].
#[verifier::ext_equal]
#[allow(inconsistent_fields)]
pub enum OpeningStepView {
    Failed(ErrorView),
    FindAdapter { next: Opening },
    Spawn { path: Seq<char>, args: Seq<String>, next: Opening },
    SpawnTcp { path: Seq<char>, args: Seq<String>, spawn_style: Seq<char>, next: Opening },
    Initialize { timeout_secs: u64, next: Opening },
    Inspect { sibling: Option<Seq<char>>, next: Handshake },
    Launch { arguments: LaunchArgumentsView, wait: bool, next: Handshake },
    Attach { arguments: AttachArguments, next: Handshake },
    WaitInitialized { timeout_secs: u64, next: Handshake },
    SetBreakpoints {
        file: SourcePath,
        breakpoints: Seq<crate::protocol::SourceBreakpointView>,
        next: PendingView,
    },
    SetFunctionBreakpoints {
        breakpoints: Seq<crate::protocol::FunctionBreakpointView>,
        next: PendingView,
    },
    ConfigurationDone { next: Handshake },
    TakeEvents { next: Handshake },
    Settle { next: SessionView },
}

impl View for OpeningStep {
    type V = OpeningStepView;

    open spec fn view(&self) -> OpeningStepView {
        match self {
            OpeningStep::Failed(error) => OpeningStepView::Failed(error@),
            OpeningStep::FindAdapter { next } => OpeningStepView::FindAdapter { next: *next },
            OpeningStep::Spawn { path, args, next } => OpeningStepView::Spawn {
                path: path@,
                args: args@,
                next: *next,
            },
            OpeningStep::SpawnTcp { path, args, spawn_style, next } => OpeningStepView::SpawnTcp {
                path: path@,
                args: args@,
                spawn_style: spawn_style@,
                next: *next,
            },
            OpeningStep::Initialize { timeout_secs, next } => OpeningStepView::Initialize {
                timeout_secs: *timeout_secs,
                next: *next,
            },
            OpeningStep::Inspect { sibling, next } => OpeningStepView::Inspect {
                sibling: crate::text::opt_text(*sibling),
                next: *next,
            },
            OpeningStep::Launch { arguments, wait, next } => OpeningStepView::Launch {
                arguments: arguments@,
                wait: *wait,
                next: *next,
            },
            OpeningStep::Attach { arguments, next } => OpeningStepView::Attach {
                arguments: *arguments,
                next: *next,
            },
            OpeningStep::WaitInitialized {
                timeout_secs,
                next,
            } => OpeningStepView::WaitInitialized { timeout_secs: *timeout_secs, next: *next },
            OpeningStep::SetBreakpoints {
                file,
                breakpoints,
                next,
            } => OpeningStepView::SetBreakpoints {
                file: *file,
                breakpoints: crate::protocol::source_views(breakpoints@),
                next: next@,
            },
            OpeningStep::SetFunctionBreakpoints {
                breakpoints,
                next,
            } => OpeningStepView::SetFunctionBreakpoints {
                breakpoints: crate::protocol::function_views(breakpoints@),
                next: next@,
            },
            OpeningStep::ConfigurationDone { next } => OpeningStepView::ConfigurationDone {
                next: *next,
            },
            OpeningStep::TakeEvents { next } => OpeningStepView::TakeEvents { next: *next },
            OpeningStep::Settle { next } => OpeningStepView::Settle { next: next@ },
        }
    }
}

/// Lines by file, with a further line. A file keeps the path under which it first came up.
pub open spec fn with_line(groups: Seq<LineGroupView>, file: SourcePath, line: u32) -> Seq<
    LineGroupView,
>
    decreases groups.len(),
{
    if groups.len() == 0 {
        seq![LineGroupView { path: file, lines: seq![line] }]
    } else if groups[0].path.same_file(file) {
        groups.update(0, LineGroupView { lines: groups[0].lines.push(line), ..groups[0] })
    } else {
        seq![groups[0]] + with_line(groups.drop_first(), file, line)
    }
}

/// The initial breakpoints on lines, by file, files in the order in which they first come up.
pub open spec fn line_groups(locations: Seq<Option<BreakpointLocation>>) -> Seq<LineGroupView>
    decreases locations.len(),
{
    if locations.len() == 0 {
        Seq::empty()
    } else {
        let groups = line_groups(locations.drop_last());
        match locations.last() {
            Some(BreakpointLocation::Line { file, line }) => with_line(groups, file, line),
            _ => groups,
        }
    }
}

/// The initial breakpoints on functions, in order.
pub open spec fn function_names(locations: Seq<Option<BreakpointLocation>>) -> Seq<Seq<char>>
    decreases locations.len(),
{
    if locations.len() == 0 {
        Seq::empty()
    } else {
        let names = function_names(locations.drop_last());
        match locations.last() {
            Some(BreakpointLocation::Function { name }) => names.push(name@),
            _ => names,
        }
    }
}

/// The request for an initial breakpoint on a line.
pub open spec fn plain_line(line: u32) -> crate::protocol::SourceBreakpointView {
    crate::protocol::SourceBreakpointView {
        line,
        column: None,
        condition: None,
        hit_condition: None,
        log_message: None,
    }
}

/// The request for an initial breakpoint on a function.
pub open spec fn plain_function(name: Seq<char>) -> crate::protocol::FunctionBreakpointView {
    crate::protocol::FunctionBreakpointView { name, condition: None, hit_condition: None }
}

impl PendingView {
    /// The next request: for the breakpoints of the first file, else for those on functions, if
    /// there are any, else that the adapter is configured.
    pub open spec fn next_step(self) -> OpeningStepView {
        if self.files.len() > 0 {
            OpeningStepView::SetBreakpoints {
                file: self.files[0].path,
                breakpoints: self.files[0].lines.map_values(|line: u32| plain_line(line)),
                next: PendingView { files: self.files.drop_first(), ..self },
            }
        } else if self.functions.len() > 0 {
            OpeningStepView::SetFunctionBreakpoints {
                breakpoints: self.functions.map_values(|name: Seq<char>| plain_function(name)),
                next: PendingView { functions: Seq::empty(), ..self },
            }
        } else {
            OpeningStepView::ConfigurationDone { next: self.handshake }
        }
    }
}

impl Plan {
    /// The initial breakpoints.
    pub open spec fn locations(self) -> Seq<Option<BreakpointLocation>> {
        match self {
            Plan::Launch { initial_breakpoints, .. } => initial_breakpoints@,
            Plan::Attach { .. } => Seq::empty(),
        }
    }
}

impl Opening {
    /// Whether the adapter's name, the times and the limits are those of `config`, the name
    /// unless another one was given.
    pub open spec fn follows(self, config: Config, adapter_name: Option<String>) -> bool {
        &&& self.adapter_name@ == match adapter_name {
            Some(name) => name@,
            None => config.defaults.adapter@,
        }
        &&& self.initialize_secs == config.timeouts.dap_initialize_secs
        &&& self.request_secs == config.timeouts.dap_request_secs
        &&& self.max_events == config.output.max_events
        &&& self.max_bytes_mb == config.output.max_bytes_mb
    }

    /// What follows when the adapter has been looked for.
    pub open spec fn found_step(
        self,
        found: Result<AdapterConfig, Vec<String>>,
    ) -> OpeningStepView {
        match found {
            Err(searched) => OpeningStepView::Failed(
                ErrorView::AdapterNotFound { name: self.adapter_name@, searched: searched@ },
            ),
            Ok(adapter) => match adapter.transport {
                TransportMode::Stdio => OpeningStepView::Spawn {
                    path: adapter.path@,
                    args: adapter.args@,
                    next: self,
                },
                TransportMode::Tcp => OpeningStepView::SpawnTcp {
                    path: adapter.path@,
                    args: adapter.args@,
                    spawn_style: adapter.spawn_style@,
                    next: self,
                },
            },
        }
    }

    /// What follows when the adapter has been started.
    pub open spec fn spawned_step(self, result: Result<(), ErrorView>) -> OpeningStepView {
        match result {
            Ok(()) => OpeningStepView::Initialize {
                timeout_secs: self.initialize_secs,
                next: self,
            },
            Err(error) => OpeningStepView::Failed(error),
        }
    }

    /// What follows when the adapter has said what it can do.
    pub open spec fn initialized_step(
        self,
        result: Result<Capabilities, ErrorView>,
    ) -> OpeningStepView {
        match result {
            Ok(capabilities) => {
                let next = Handshake { opening: self, capabilities };
                match self.plan {
                    Plan::Launch { program, .. } => OpeningStepView::Inspect {
                        sibling: typescript_sibling(program@),
                        next,
                    },
                    Plan::Attach { .. } => next.start_step(None, false),
                }
            },
            Err(error) => OpeningStepView::Failed(error),
        }
    }
}

impl Handshake {
    /// The request that the adapter launch the program or attach to the process. The adapter for
    /// Python answers a launch only when it has been configured, so its answer is not waited for.
    pub open spec fn start_step(
        self,
        cwd: Option<Seq<char>>,
        sibling_exists: bool,
    ) -> OpeningStepView {
        let name = self.opening.adapter_name@;
        match self.opening.plan {
            Plan::Launch { program, args, stop_on_entry, .. } => OpeningStepView::Launch {
                arguments: launch_arguments(
                    name,
                    program@,
                    texts(args@),
                    stop_on_entry,
                    cwd,
                    is_typescript(crate::paths::path_extension(program@), sibling_exists),
                ),
                wait: !is_python(name),
                next: self,
            },
            Plan::Attach { pid } => OpeningStepView::Attach {
                arguments: AttachArguments { pid, wait_for: None },
                next: self,
            },
        }
    }

    /// What follows when the adapter has launched the program or attached to the process.
    pub open spec fn started_step(self, result: Result<(), ErrorView>) -> OpeningStepView {
        match result {
            Ok(()) => OpeningStepView::WaitInitialized {
                timeout_secs: self.opening.request_secs,
                next: self,
            },
            Err(error) => OpeningStepView::Failed(error),
        }
    }

    /// What follows when the adapter can be configured.
    pub open spec fn ready_step(self, result: Result<(), ErrorView>) -> OpeningStepView {
        match result {
            Ok(()) => self.pending().next_step(),
            Err(error) => OpeningStepView::Failed(error),
        }
    }

    /// What follows when the adapter has been told that it is configured.
    pub open spec fn configured_step(self, result: Result<(), ErrorView>) -> OpeningStepView {
        match result {
            Ok(()) => OpeningStepView::TakeEvents { next: self },
            Err(error) => OpeningStepView::Failed(error),
        }
    }

    /// What follows when the adapter's events have been taken over, or could not be.
    pub open spec fn taken_step(self, taken: bool) -> OpeningStepView {
        if taken {
            OpeningStepView::Settle { next: self.session() }
        } else {
            OpeningStepView::Failed(ErrorView::Internal("Failed to get event receiver"@))
        }
    }

    /// The breakpoints that the adapter has to be given.
    pub open spec fn pending(self) -> PendingView {
        PendingView {
            handshake: self,
            files: line_groups(self.opening.plan.locations()),
            functions: function_names(self.opening.plan.locations()),
        }
    }

    /// The session as it is when the adapter has been let go. A launched program runs; a process
    /// that was attached to has stopped.
    pub open spec fn session(self) -> SessionView {
        let (state, program, args, launched, stopped_reason) = match self.opening.plan {
            Plan::Launch { program, args, .. } => (
                SessionState::Running,
                program@,
                args@,
                true,
                None,
            ),
            Plan::Attach { pid } => (
                SessionState::Stopped,
                "pid:"@ + crate::text::decimal(pid as nat),
                Seq::empty(),
                false,
                Some("attach"@),
            ),
        };
        SessionView {
            state,
            capabilities: self.capabilities,
            program,
            args,
            adapter_name: self.opening.adapter_name@,
            launched,
            breakpoints: crate::breakpoints::TableView::empty(),
            threads: Seq::empty(),
            selected_thread: None,
            stopped_thread: None,
            stopped_reason,
            hit_breakpoints: Seq::empty(),
            current_frame_index: 0,
            current_frame: None,
            cached_frames: Seq::empty(),
            output: crate::output::OutputView {
                events: Seq::empty(),
                max_events: self.opening.max_events,
                max_bytes: (self.opening.max_bytes_mb * 1024 * 1024) as usize,
            },
            exit_code: None,
            request_timeout_secs: self.opening.request_secs,
        }
    }
}

/// A copy of `strings`.
fn copy_strings(strings: &Vec<String>) -> (copy: Vec<String>)
    ensures
        copy@ == strings@,
{
    let mut copy: Vec<String> = Vec::new();
    let mut i: usize = 0;
    while i < strings.len()
        invariant
            i <= strings@.len(),
            copy@ == strings@.take(i as int),
        decreases strings@.len() - i,
    {
        copy.push(strings[i].clone());
        i = i + 1;
    }
    copy
}

fn some_text(given: bool, text: &str) -> (result: Option<String>)
    ensures
        crate::text::opt_text(result) == text_if(given, text@),
{
    if given {
        Some(text.to_string())
    } else {
        None
    }
}

fn some_flag(given: bool) -> (result: Option<bool>)
    ensures
        result == flag_if(given),
{
    if given {
        Some(true)
    } else {
        None
    }
}

fn is_extension(extension: &Option<String>, text: &str) -> (same: bool)
    ensures
        same == (crate::text::opt_text(*extension) == Some(text@)),
{
    match extension {
        Some(found) => crate::text::text_is(found, text),
        None => false,
    }
}

/// Whether a program with that extension is written in TypeScript, or compiled from a TypeScript
/// file beside it.
pub fn typescript_source(extension: &Option<String>, sibling_exists: bool) -> (result: bool)
    ensures
        result == is_typescript(crate::text::opt_text(*extension), sibling_exists),
{
    is_extension(extension, "ts") || is_extension(extension, "js") && sibling_exists
}

/// How the adapter of that name is told to launch a program. Fields that concern one adapter are
/// set only where that adapter is used.
pub fn build_launch_arguments(
    adapter_name: &String,
    program: &str,
    args: &Vec<String>,
    stop_on_entry: bool,
    cwd: Option<String>,
    typescript: bool,
) -> (arguments: LaunchArguments)
    ensures
        arguments@ == launch_arguments(
            adapter_name@,
            program@,
            texts(args@),
            stop_on_entry,
            crate::text::opt_text(cwd),
            typescript,
        ),
{
    let python = crate::text::text_is(adapter_name, "debugpy");
    let go = crate::text::text_is(adapter_name, "go") || crate::text::text_is(
        adapter_name,
        "delve",
    ) || crate::text::text_is(adapter_name, "dlv");
    let gdb = crate::text::text_is(adapter_name, "gdb") || crate::text::text_is(
        adapter_name,
        "cuda-gdb",
    );
    let js_debug = crate::text::text_is(adapter_name, "js-debug");
    LaunchArguments {
        program: program.to_string(),
        args: copy_strings(args),
        cwd,
        env: None,
        stop_on_entry,
        init_commands: None,
        pre_run_commands: None,
        request: some_text(python, "launch"),
        console: some_text(python, "internalConsole"),
        python: None,
        just_my_code: some_flag(python),
        mode: some_text(go, "exec"),
        stop_at_entry: some_flag(go && stop_on_entry),
        stop_at_beginning_of_main_subprogram: some_flag(gdb && stop_on_entry),
        type_attr: some_text(js_debug, "pwa-node"),
        source_maps: some_flag(js_debug && typescript),
        out_files: None,
        runtime_executable: None,
        runtime_args: None,
        skip_files: None,
    }
}

pub proof fn lemma_with_line(groups: Seq<LineGroupView>, file: SourcePath, line: u32, n: int)
    requires
        0 <= n <= groups.len(),
        forall|k: int| 0 <= k < n ==> !(#[trigger] groups[k]).path.same_file(file),
        n < groups.len() ==> groups[n].path.same_file(file),
    ensures
        with_line(groups, file, line) == if n < groups.len() {
            groups.update(n, LineGroupView { lines: groups[n].lines.push(line), ..groups[n] })
        } else {
            groups.push(LineGroupView { path: file, lines: seq![line] })
        },
    decreases n,
{
    if n > 0 {
        assert(!groups[0].path.same_file(file));
        let rest = groups.drop_first();
        assert forall|k: int| 0 <= k < n - 1 implies !(#[trigger] rest[k]).path.same_file(file) by {
            assert(rest[k] == groups[k + 1]);
        }
        lemma_with_line(rest, file, line, n - 1);
        assert(seq![groups[0]] + with_line(rest, file, line) =~= if n < groups.len() {
            groups.update(n, LineGroupView { lines: groups[n].lines.push(line), ..groups[n] })
        } else {
            groups.push(LineGroupView { path: file, lines: seq![line] })
        });
    } else if groups.len() == 0 {
        assert(groups.push(LineGroupView { path: file, lines: seq![line] }) =~= with_line(
            groups,
            file,
            line,
        ));
    }
}

fn add_line(groups: &mut Vec<LineGroup>, file: &SourcePath, line: u32)
    ensures
        group_views(final(groups)@) == with_line(group_views(old(groups)@), *file, line),
{
    let ghost before = group_views(groups@);
    let mut i: usize = 0;
    while i < groups.len()
        invariant
            groups@ == old(groups)@,
            before == group_views(groups@),
            i <= groups@.len(),
            forall|k: int| 0 <= k < i ==> !(#[trigger] before[k]).path.same_file(*file),
        decreases groups@.len() - i,
    {
        assert(before[i as int] == groups@[i as int]@);
        if groups[i].path.names_same_file(file) {
            proof {
                lemma_with_line(before, *file, line, i as int);
            }
            groups[i].lines.push(line);
            assert(group_views(groups@) =~= with_line(before, *file, line));
            return;
        }
        i = i + 1;
    }
    proof {
        lemma_with_line(before, *file, line, i as int);
    }
    let mut lines: Vec<u32> = Vec::new();
    lines.push(line);
    assert(lines@ =~= seq![line]);
    groups.push(LineGroup { path: file.clone(), lines });
    assert(group_views(groups@) =~= with_line(before, *file, line));
}

impl Opening {
    /// Takes what came of looking for the adapter: how to start it, or where it was looked for.
    pub fn adapter_found(self, found: Result<AdapterConfig, Vec<String>>) -> (step: OpeningStep)
        ensures
            step@ == self.found_step(found),
    {
        match found {
            Err(searched) => OpeningStep::Failed(
                Error::AdapterNotFound { name: self.adapter_name, searched },
            ),
            Ok(adapter) => match adapter.transport {
                TransportMode::Stdio => OpeningStep::Spawn {
                    path: adapter.path,
                    args: adapter.args,
                    next: self,
                },
                TransportMode::Tcp => OpeningStep::SpawnTcp {
                    path: adapter.path,
                    args: adapter.args,
                    spawn_style: adapter.spawn_style,
                    next: self,
                },
            },
        }
    }

    /// Takes what came of starting the adapter.
    pub fn spawned(self, result: Result<(), Error>) -> (step: OpeningStep)
        ensures
            step@ == self.spawned_step(crate::error::result_view(result)),
    {
        match result {
            Ok(()) => OpeningStep::Initialize { timeout_secs: self.initialize_secs, next: self },
            Err(error) => OpeningStep::Failed(error),
        }
    }

    /// Takes what the adapter says that it can do.
    pub fn initialized(self, result: Result<Capabilities, Error>) -> (step: OpeningStep)
        ensures
            step@ == self.initialized_step(crate::error::result_view(result)),
    {
        match result {
            Err(error) => OpeningStep::Failed(error),
            Ok(capabilities) => {
                let sibling = match &self.plan {
                    Plan::Launch { program, .. } => {
                        let extension = crate::paths::extension_of(program.as_str());
                        if is_extension(&extension, "js") {
                            proof {
                                reveal_strlit("ts");
                            }
                            Some(Some(crate::paths::replace_extension(program.as_str(), "ts")))
                        } else {
                            Some(None)
                        }
                    },
                    Plan::Attach { .. } => None,
                };
                let next = Handshake { opening: self, capabilities };
                match sibling {
                    Some(sibling) => OpeningStep::Inspect { sibling, next },
                    None => next.start(None, false),
                }
            },
        }
    }
}

impl Handshake {
    /// Has the adapter launch the program or attach to the process. `cwd` is the working
    /// directory, and `sibling_exists` tells whether there is a TypeScript file beside the
    /// program.
    pub fn start(self, cwd: Option<String>, sibling_exists: bool) -> (step: OpeningStep)
        ensures
            step@ == self.start_step(crate::text::opt_text(cwd), sibling_exists),
    {
        match &self.opening.plan {
            Plan::Launch { program, args, stop_on_entry, .. } => {
                let extension = crate::paths::extension_of(program.as_str());
                let arguments = build_launch_arguments(
                    &self.opening.adapter_name,
                    program.as_str(),
                    args,
                    *stop_on_entry,
                    cwd,
                    typescript_source(&extension, sibling_exists),
                );
                let wait = !crate::text::text_is(&self.opening.adapter_name, "debugpy");
                OpeningStep::Launch { arguments, wait, next: self }
            },
            Plan::Attach { pid } => OpeningStep::Attach {
                arguments: AttachArguments { pid: *pid, wait_for: None },
                next: self,
            },
        }
    }

    /// Takes what came of the launch or the attachment.
    pub fn started(self, result: Result<(), Error>) -> (step: OpeningStep)
        ensures
            step@ == self.started_step(crate::error::result_view(result)),
    {
        match result {
            Ok(()) => OpeningStep::WaitInitialized {
                timeout_secs: self.opening.request_secs,
                next: self,
            },
            Err(error) => OpeningStep::Failed(error),
        }
    }

    /// Sorts out the initial breakpoints.
    fn sort_out(self) -> (pending: Pending)
        ensures
            pending@ == self.pending(),
    {
        let mut files: Vec<LineGroup> = Vec::new();
        let mut functions: Vec<String> = Vec::new();
        assert(group_views(files@) =~= Seq::empty());
        assert(texts(functions@) =~= Seq::empty());
        if let Plan::Launch { initial_breakpoints, .. } = &self.opening.plan {
            let mut i: usize = 0;
            assert(initial_breakpoints@.take(0) =~= Seq::empty());
            while i < initial_breakpoints.len()
                invariant
                    i <= initial_breakpoints@.len(),
                    group_views(files@) == line_groups(initial_breakpoints@.take(i as int)),
                    texts(functions@) == function_names(initial_breakpoints@.take(i as int)),
                decreases initial_breakpoints@.len() - i,
            {
                let ghost names = texts(functions@);
                proof {
                    let front = initial_breakpoints@.take(i + 1);
                    assert(front.drop_last() =~= initial_breakpoints@.take(i as int));
                }
                match &initial_breakpoints[i] {
                    Some(BreakpointLocation::Line { file, line }) => add_line(
                        &mut files,
                        file,
                        *line,
                    ),
                    Some(BreakpointLocation::Function { name }) => {
                        functions.push(name.clone());
                        assert(texts(functions@) =~= names.push(name@));
                    },
                    None => {},
                }
                i = i + 1;
            }
            assert(initial_breakpoints@.take(i as int) =~= initial_breakpoints@);
        }
        Pending { handshake: self, files, functions }
    }

    /// Takes that the adapter can be configured, and gives it the initial breakpoints.
    pub fn ready(self, result: Result<(), Error>) -> (step: OpeningStep)
        ensures
            step@ == self.ready_step(crate::error::result_view(result)),
    {
        match result {
            Ok(()) => self.sort_out().next_step(),
            Err(error) => OpeningStep::Failed(error),
        }
    }

    /// Takes what came of telling the adapter that it is configured.
    pub fn configured(self, result: Result<(), Error>) -> (step: OpeningStep)
        ensures
            step@ == self.configured_step(crate::error::result_view(result)),
    {
        match result {
            Ok(()) => OpeningStep::TakeEvents { next: self },
            Err(error) => OpeningStep::Failed(error),
        }
    }

    /// Takes whether the adapter's events could be taken over. The session is then complete, and
    /// has to settle.
    pub fn events_taken(self, taken: bool) -> (step: OpeningStep)
        requires
            taken ==> self.opening.max_bytes_mb * 1024 * 1024 <= usize::MAX,
        ensures
            step@ == self.taken_step(taken),
            match step {
                OpeningStep::Settle { next } => next.wf(),
                _ => true,
            },
    {
        if !taken {
            return OpeningStep::Failed(Error::internal("Failed to get event receiver"));
        }
        OpeningStep::Settle { next: Settling { session: DebugSession::opened(self) } }
    }
}

impl Settling {
    /// The session is in order.
    pub closed spec fn wf(&self) -> bool {
        self.session.wf()
    }

    /// Takes what came of one round of waiting. `None` asks for another round.
    pub fn wait_settled(&mut self, received: Received) -> (verdict: Option<Result<(), Error>>)
        requires
            old(self).wf(),
        ensures
            final(self).wf(),
            exists|now: std::time::Instant|
                final(self)@ == #[trigger] old(self)@.after_received(received, now),
            match verdict {
                None => crate::state::settle_verdict(received) is None,
                Some(result) => crate::state::settle_verdict(received) == Some(
                    crate::error::result_view(result),
                ),
            },
    {
        let verdict = self.session.wait_settled(received);
        proof {
            let now = choose|now: std::time::Instant|
                self.session@ == #[trigger] old(self).session@.after_received(received, now);
            assert(self@ == old(self)@.after_received(received, now));
        }
        verdict
    }

    /// Takes what the wait came to: the session is open, or cannot be opened.
    pub fn settled(self, result: Result<(), Error>) -> (opened: Result<DebugSession, Error>)
        requires
            self.wf(),
        ensures
            match opened {
                Ok(session) => session.wf() && Ok::<SessionView, ErrorView>(session@)
                    == settled_session(self@, crate::error::result_view(result)),
                Err(error) => Err::<SessionView, ErrorView>(error@) == settled_session(
                    self@,
                    crate::error::result_view(result),
                ),
            },
    {
        match result {
            Ok(()) => Ok(self.session),
            Err(error) => Err(error),
        }
    }
}

impl Pending {
    /// The next request for initial breakpoints, or that the adapter is configured.
    fn next_step(self) -> (step: OpeningStep)
        ensures
            step@ == self@.next_step(),
    {
        let mut files = self.files;
        let mut functions = self.functions;
        let handshake = self.handshake;
        if files.len() > 0 {
            let group = files.remove(0);
            assert(group_views(files@) =~= self@.files.drop_first());
            let mut breakpoints: Vec<SourceBreakpoint> = Vec::new();
            let mut i: usize = 0;
            while i < group.lines.len()
                invariant
                    i <= group.lines@.len(),
                    breakpoints@.len() == i,
                    forall|k: int|
                        0 <= k < i ==> (#[trigger] breakpoints@[k])@ == plain_line(group.lines@[k]),
                decreases group.lines@.len() - i,
            {
                breakpoints.push(
                    SourceBreakpoint {
                        line: group.lines[i],
                        column: None,
                        condition: None,
                        hit_condition: None,
                        log_message: None,
                    },
                );
                i = i + 1;
            }
            assert(crate::protocol::source_views(breakpoints@) =~= group.lines@.map_values(
                |line: u32| plain_line(line),
            ));
            OpeningStep::SetBreakpoints {
                file: group.path,
                breakpoints,
                next: Pending { handshake, files, functions },
            }
        } else if functions.len() > 0 {
            let mut breakpoints: Vec<FunctionBreakpoint> = Vec::new();
            let mut i: usize = 0;
            while i < functions.len()
                invariant
                    i <= functions@.len(),
                    breakpoints@.len() == i,
                    forall|k: int|
                        0 <= k < i ==> (#[trigger] breakpoints@[k])@ == plain_function(
                            functions@[k]@,
                        ),
                decreases functions@.len() - i,
            {
                breakpoints.push(
                    FunctionBreakpoint {
                        name: functions[i].clone(),
                        condition: None,
                        hit_condition: None,
                    },
                );
                i = i + 1;
            }
            assert(crate::protocol::function_views(breakpoints@) =~= self@.functions.map_values(
                |name: Seq<char>| plain_function(name),
            ));
            functions.clear();
            assert(texts(functions@) =~= Seq::empty());
            OpeningStep::SetFunctionBreakpoints {
                breakpoints,
                next: Pending { handshake, files, functions },
            }
        } else {
            OpeningStep::ConfigurationDone { next: handshake }
        }
    }

    /// Takes the adapter's answer on initial breakpoints and goes on, whatever the answer is.
    pub fn breakpoints_set(self, reply: Result<Vec<Breakpoint>, Error>) -> (step: OpeningStep)
        ensures
            step@ == self@.next_step(),
    {
        self.next_step()
    }
}

impl DebugSession {
    /// Create a new debug session by launching a program
    pub fn launch(
        config: &Config,
        program: &str,
        args: Vec<String>,
        adapter_name: Option<String>,
        stop_on_entry: bool,
        initial_breakpoints: Vec<Option<BreakpointLocation>>,
    ) -> (step: OpeningStep)
        ensures
            match step {
                OpeningStep::FindAdapter { next } => {
                    &&& next.follows(*config, adapter_name)
                    &&& next.plan is Launch
                    &&& next.plan->program@ == program@
                    &&& next.plan->args == args
                    &&& next.plan->stop_on_entry == stop_on_entry
                    &&& next.plan->initial_breakpoints == initial_breakpoints
                },
                _ => false,
            },
    {
        open(
            config,
            Plan::Launch { program: program.to_string(), args, stop_on_entry, initial_breakpoints },
            adapter_name,
        )
    }

    /// Create a new debug session by attaching to a process
    pub fn attach(config: &Config, pid: u32, adapter_name: Option<String>) -> (step: OpeningStep)
        ensures
            match step {
                OpeningStep::FindAdapter { next } => {
                    &&& next.follows(*config, adapter_name)
                    &&& next.plan == Plan::Attach { pid }
                },
                _ => false,
            },
    {
        open(config, Plan::Attach { pid }, adapter_name)
    }
}

fn open(config: &Config, plan: Plan, adapter_name: Option<String>) -> (step: OpeningStep)
    ensures
        match step {
            OpeningStep::FindAdapter { next } => next.follows(*config, adapter_name) && next.plan
                == plan,
            _ => false,
        },
{
    let adapter_name = match adapter_name {
        Some(name) => name,
        None => config.defaults.adapter.clone(),
    };
    OpeningStep::FindAdapter {
        next: Opening {
            plan,
            adapter_name,
            initialize_secs: config.timeouts.dap_initialize_secs,
            request_secs: config.timeouts.dap_request_secs,
            max_events: config.output.max_events,
            max_bytes_mb: config.output.max_bytes_mb,
        },
    }
}

} // verus!
