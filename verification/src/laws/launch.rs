//! What the adapter is told when a session is opened, and what the session starts with.

use crate::breakpoints::BreakpointLocation;
use crate::error::ErrorView;
use crate::protocol::Capabilities;
use crate::setup::{
    AdapterConfig, Config, Handshake, LaunchArgumentsView, LineGroupView, Opening,
    OpeningStepView, Plan, TransportMode,
};
use crate::state::{SessionState, SessionView};
use vstd::prelude::*;

verus! {

/// Whether an optional field of a request is set to `text` exactly where `wanted` holds, and left
/// out otherwise.
pub open spec fn set_exactly(field: Option<Seq<char>>, wanted: bool, text: Seq<char>) -> bool {
    match field {
        Some(found) => wanted && found == text,
        None => !wanted,
    }
}

/// Whether an optional flag of a request is set to `true` exactly where `wanted` holds, and left
/// out otherwise.
pub open spec fn raised_exactly(field: Option<bool>, wanted: bool) -> bool {
    match field {
        Some(flag) => wanted && flag,
        None => !wanted,
    }
}

/// Whether the arguments hold for the adapter of that name what concerns it, and nothing that
/// concerns another adapter.
pub open spec fn suits(
    arguments: LaunchArgumentsView,
    adapter: Seq<char>,
    stop_on_entry: bool,
    typescript: bool,
) -> bool {
    let python = adapter == "debugpy"@;
    let go = adapter == "go"@ || adapter == "delve"@ || adapter == "dlv"@;
    let gdb = adapter == "gdb"@ || adapter == "cuda-gdb"@;
    let javascript = adapter == "js-debug"@;
    &&& set_exactly(arguments.request, python, "launch"@)
    &&& set_exactly(arguments.console, python, "internalConsole"@)
    &&& raised_exactly(arguments.just_my_code, python)
    &&& arguments.python is None
    &&& set_exactly(arguments.mode, go, "exec"@)
    &&& raised_exactly(arguments.stop_at_entry, go && stop_on_entry)
    &&& raised_exactly(arguments.stop_at_beginning_of_main_subprogram, gdb && stop_on_entry)
    &&& set_exactly(arguments.type_attr, javascript, "pwa-node"@)
    &&& raised_exactly(arguments.source_maps, javascript && typescript)
    &&& arguments.env is None
    &&& arguments.init_commands is None
    &&& arguments.pre_run_commands is None
    &&& arguments.out_files is None
    &&& arguments.runtime_executable is None
    &&& arguments.runtime_args is None
    &&& arguments.skip_files is None
}

/// The adapter is told the program, its arguments, the directory and whether to stop on entry as
/// they were given, and besides that only what concerns this very adapter.
pub proof fn law_launch_arguments_suit_the_adapter(
    adapter: Seq<char>,
    program: Seq<char>,
    args: Seq<Seq<char>>,
    stop_on_entry: bool,
    cwd: Option<Seq<char>>,
    typescript: bool,
)
    ensures
        ({
            let arguments = crate::setup::launch_arguments(
                adapter,
                program,
                args,
                stop_on_entry,
                cwd,
                typescript,
            );
            &&& arguments.program == program
            &&& arguments.args == args
            &&& arguments.cwd == cwd
            &&& arguments.stop_on_entry == stop_on_entry
            &&& suits(arguments, adapter, stop_on_entry, typescript)
        }),
{
}

/// No adapter is told to stop the program at its entry, in whatever words, unless that was asked
/// for. Where it was, those that have words of their own for it are told so in those words: the
/// ones for Go, and the ones built on GDB.
pub proof fn law_stop_on_entry_only_where_asked(
    adapter: Seq<char>,
    program: Seq<char>,
    args: Seq<Seq<char>>,
    cwd: Option<Seq<char>>,
    typescript: bool,
)
    ensures
        ({
            let without = crate::setup::launch_arguments(
                adapter,
                program,
                args,
                false,
                cwd,
                typescript,
            );
            let with = crate::setup::launch_arguments(
                adapter,
                program,
                args,
                true,
                cwd,
                typescript,
            );
            let go = adapter == "go"@ || adapter == "delve"@ || adapter == "dlv"@;
            let gdb = adapter == "gdb"@ || adapter == "cuda-gdb"@;
            &&& !without.stop_on_entry
            &&& without.stop_at_entry is None
            &&& without.stop_at_beginning_of_main_subprogram is None
            &&& with.stop_on_entry
            &&& with.stop_at_entry == Some(true) <==> go
            &&& with.stop_at_entry is None <==> !go
            &&& with.stop_at_beginning_of_main_subprogram == Some(true) <==> gdb
            &&& with.stop_at_beginning_of_main_subprogram is None <==> !gdb
        }),
{
}

/// Whether the program is written in TypeScript, or is JavaScript with its TypeScript beside it.
pub open spec fn from_typescript(program: Seq<char>, sibling_exists: bool) -> bool {
    match crate::paths::path_extension(program) {
        Some(extension) => extension == "ts"@ || extension == "js"@ && sibling_exists,
        None => false,
    }
}

/// A launch tells the adapter what the session is for, and waits for the answer unless the adapter
/// is the one for Python.
pub proof fn law_launch_says_what_was_asked(
    handshake: Handshake,
    cwd: Option<Seq<char>>,
    sibling_exists: bool,
)
    requires
        handshake.opening.plan is Launch,
    ensures
        match handshake.start_step(cwd, sibling_exists) {
            OpeningStepView::Launch { arguments, wait, next } => {
                let plan = handshake.opening.plan;
                let adapter = handshake.opening.adapter_name@;
                &&& next == handshake
                &&& wait <==> adapter != "debugpy"@
                &&& arguments.program == plan->program@
                &&& arguments.args.len() == plan->args@.len()
                &&& forall|k: int|
                    0 <= k < plan->args@.len() ==> #[trigger] arguments.args[k] == plan->args@[k]@
                &&& arguments.cwd == cwd
                &&& arguments.stop_on_entry == plan->stop_on_entry
                &&& suits(
                    arguments,
                    adapter,
                    plan->stop_on_entry,
                    from_typescript(plan->program@, sibling_exists),
                )
            },
            _ => false,
        },
{
}

/// An attachment names the process and nothing else.
pub proof fn law_attachment_says_what_was_asked(
    handshake: Handshake,
    cwd: Option<Seq<char>>,
    sibling_exists: bool,
)
    requires
        handshake.opening.plan is Attach,
    ensures
        match handshake.start_step(cwd, sibling_exists) {
            OpeningStepView::Attach { arguments, next } => {
                &&& next == handshake
                &&& arguments.pid == handshake.opening.plan->pid
                &&& arguments.wait_for is None
            },
            _ => false,
        },
{
}

/// A file beside the program is looked for exactly where the program is JavaScript, and it is the
/// one of the same name in TypeScript. An attachment needs no look.
pub proof fn law_sibling_is_looked_for(opening: Opening, capabilities: Capabilities)
    ensures
        match (opening.plan, opening.initialized_step(Ok(capabilities))) {
            (Plan::Launch { program, .. }, OpeningStepView::Inspect { sibling, next }) => {
                &&& next == (Handshake { opening, capabilities })
                &&& match sibling {
                    Some(path) => crate::paths::path_extension(program@) == Some("js"@) && path
                        == crate::paths::path_with_extension(program@, "ts"@),
                    None => crate::paths::path_extension(program@) != Some("js"@),
                }
            },
            (Plan::Attach { pid }, OpeningStepView::Attach { arguments, next }) => {
                next == (Handshake { opening, capabilities }) && arguments.pid == pid
            },
            _ => false,
        },
{
}

/// The adapter that was found is started with its own path and arguments, over the transport that
/// it is configured for; one that was not found is reported with the names that were tried.
pub proof fn law_found_adapter_is_started(
    opening: Opening,
    found: Result<AdapterConfig, Vec<String>>,
)
    ensures
        match (found, opening.found_step(found)) {
            (Ok(adapter), OpeningStepView::Spawn { path, args, next }) => {
                &&& adapter.transport == TransportMode::Stdio
                &&& path == adapter.path@
                &&& args == adapter.args@
                &&& next == opening
            },
            (Ok(adapter), OpeningStepView::SpawnTcp { path, args, spawn_style, next }) => {
                &&& adapter.transport == TransportMode::Tcp
                &&& path == adapter.path@
                &&& args == adapter.args@
                &&& spawn_style == adapter.spawn_style@
                &&& next == opening
            },
            (
                Err(tried),
                OpeningStepView::Failed(ErrorView::AdapterNotFound { name, searched }),
            ) => name == opening.adapter_name@ && searched == tried@,
            _ => false,
        },
{
}

/// Each answer is waited for as long as the configuration allows for that answer, nothing of the
/// session is lost on the way, and every failure is handed back as it is.
pub proof fn law_opening_carries_on(
    opening: Opening,
    handshake: Handshake,
    error: ErrorView,
)
    ensures
        opening.spawned_step(Ok(())) == (OpeningStepView::Initialize {
            timeout_secs: opening.initialize_secs,
            next: opening,
        }),
        handshake.started_step(Ok(())) == (OpeningStepView::WaitInitialized {
            timeout_secs: handshake.opening.request_secs,
            next: handshake,
        }),
        handshake.configured_step(Ok(())) == (OpeningStepView::TakeEvents { next: handshake }),
        handshake.taken_step(true) == (OpeningStepView::Settle { next: handshake.session() }),
        opening.spawned_step(Err(error)) == OpeningStepView::Failed(error),
        opening.initialized_step(Err(error)) == OpeningStepView::Failed(error),
        handshake.started_step(Err(error)) == OpeningStepView::Failed(error),
        handshake.ready_step(Err(error)) == OpeningStepView::Failed(error),
        handshake.configured_step(Err(error)) == OpeningStepView::Failed(error),
        handshake.taken_step(false) == OpeningStepView::Failed(
            ErrorView::Internal("Failed to get event receiver"@),
        ),
{
}

/// The session that has settled is the one that was waiting, and a failed wait is handed back.
pub proof fn law_settled_session_is_the_one_that_waited(session: SessionView, error: ErrorView)
    ensures
        crate::setup::settled_session(session, Ok(())) == Ok::<SessionView, ErrorView>(session),
        crate::setup::settled_session(session, Err(error)) == Err::<SessionView, ErrorView>(error),
{
}

/// A session is opened with the adapter that was named, or else the default one, and with the
/// times and limits of the configuration.
pub proof fn law_opening_follows_the_configuration(
    opening: Opening,
    config: Config,
    adapter: Option<String>,
)
    requires
        opening.follows(config, adapter),
    ensures
        adapter is Some ==> opening.adapter_name@ == adapter->0@,
        adapter is None ==> opening.adapter_name@ == config.defaults.adapter@,
        opening.initialize_secs == config.timeouts.dap_initialize_secs,
        opening.request_secs == config.timeouts.dap_request_secs,
        opening.max_events == config.output.max_events,
        opening.max_bytes_mb == config.output.max_bytes_mb,
{
}

/// A new session knows what it was opened with and nothing of the debuggee yet: a launched program
/// runs, a process that was attached to has stopped for that reason.
pub proof fn law_new_session_starts_afresh(handshake: Handshake)
    requires
        handshake.opening.max_bytes_mb * 1024 * 1024 <= usize::MAX,
    ensures
        ({
            let session = handshake.session();
            let opening = handshake.opening;
            &&& session.capabilities == handshake.capabilities
            &&& session.adapter_name == opening.adapter_name@
            &&& session.request_timeout_secs == opening.request_secs
            &&& session.output.max_events == opening.max_events
            &&& session.output.max_bytes == opening.max_bytes_mb * 1024 * 1024
            &&& session.output.events.len() == 0
            &&& session.breakpoints.files.len() == 0
            &&& session.breakpoints.functions.len() == 0
            &&& session.breakpoints.next_id == 1
            &&& session.threads.len() == 0
            &&& session.selected_thread is None
            &&& session.stopped_thread is None
            &&& session.hit_breakpoints.len() == 0
            &&& crate::laws::events::fresh_stack(session)
            &&& session.exit_code is None
            &&& match opening.plan {
                Plan::Launch { program, args, .. } => {
                    &&& session.state == SessionState::Running
                    &&& session.launched
                    &&& session.program == program@
                    &&& session.args == args@
                    &&& session.stopped_reason is None
                },
                Plan::Attach { pid } => {
                    &&& session.state == SessionState::Stopped
                    &&& !session.launched
                    &&& session.program.len() > 4
                    &&& session.program.take(4) == "pid:"@
                    &&& crate::laws::text::writes(session.program.skip(4), pid as int)
                    &&& session.args.len() == 0
                    &&& session.stopped_reason == Some("attach"@)
                },
            }
        }),
{
    if let Plan::Attach { pid } = handshake.opening.plan {
        reveal_strlit("pid:");
        crate::laws::text::law_decimal_reads_back(pid as nat);
        let program = handshake.session().program;
        assert(program.take(4) =~= "pid:"@);
        assert(program.skip(4) =~= crate::text::decimal(pid as nat));
    }
}

/// The functions among initial breakpoints, in order: what stands in one part of the list and what
/// stands in the other follow each other, a function counts by its name, and nothing else counts.
pub proof fn law_initial_functions_in_order(
    first: Seq<Option<BreakpointLocation>>,
    second: Seq<Option<BreakpointLocation>>,
    location: Option<BreakpointLocation>,
)
    ensures
        crate::setup::function_names(first + second) == crate::setup::function_names(first)
            + crate::setup::function_names(second),
        crate::setup::function_names(seq![location]) == match location {
            Some(BreakpointLocation::Function { name }) => seq![name@],
            _ => Seq::empty(),
        },
        crate::setup::function_names(Seq::empty()) == Seq::<Seq<char>>::empty(),
    decreases second.len(),
{
    reveal_with_fuel(crate::setup::function_names, 2);
    assert(seq![location].drop_last() =~= Seq::empty());
    assert(crate::setup::function_names(seq![location]) =~= match location {
        Some(BreakpointLocation::Function { name }) => seq![name@],
        _ => Seq::empty(),
    });
    if second.len() == 0 {
        assert(first + second =~= first);
        assert(crate::setup::function_names(first) + Seq::<Seq<char>>::empty()
            =~= crate::setup::function_names(first));
    } else {
        assert((first + second).drop_last() =~= first + second.drop_last());
        law_initial_functions_in_order(first, second.drop_last(), location);
        assert(crate::setup::function_names(first + second) =~= crate::setup::function_names(first)
            + crate::setup::function_names(second));
    }
}

/// The lines among initial breakpoints that are of the file of that key, in order.
pub open spec fn lines_named(
    locations: Seq<Option<BreakpointLocation>>,
    file: Seq<char>,
) -> Seq<u32>
    decreases locations.len(),
{
    if locations.len() == 0 {
        Seq::empty()
    } else {
        let lines = lines_named(locations.drop_last(), file);
        match locations.last() {
            Some(BreakpointLocation::Line { file: f, line }) => if f.key@ == file {
                lines.push(line)
            } else {
                lines
            },
            _ => lines,
        }
    }
}

proof fn lemma_group_place(groups: Seq<LineGroupView>, file: crate::paths::SourcePath) -> (n: int)
    ensures
        0 <= n <= groups.len(),
        forall|k: int| 0 <= k < n ==> !(#[trigger] groups[k]).path.same_file(file),
        n < groups.len() ==> groups[n].path.same_file(file),
    decreases groups.len(),
{
    if groups.len() == 0 {
        0
    } else {
        let front = groups.drop_last();
        let n = lemma_group_place(front, file);
        assert forall|k: int| 0 <= k < n implies !(#[trigger] groups[k]).path.same_file(file) by {
            assert(front[k] == groups[k]);
        }
        if n < front.len() {
            assert(front[n] == groups[n]);
            n
        } else if groups[n].path.same_file(file) {
            n
        } else {
            n + 1
        }
    }
}

proof fn lemma_lines_named(locations: Seq<Option<BreakpointLocation>>)
    ensures
        forall|i: int|
            0 <= i < crate::setup::line_groups(locations).len() ==> (
            #[trigger] crate::setup::line_groups(locations)[i]).lines == lines_named(
                locations,
                crate::setup::line_groups(locations)[i].path.key@,
            ),
        forall|file: Seq<char>|
            (forall|i: int|
                0 <= i < crate::setup::line_groups(locations).len() ==> (
                #[trigger] crate::setup::line_groups(locations)[i]).path.key@ != file)
                ==> #[trigger] lines_named(locations, file) == Seq::<u32>::empty(),
    decreases locations.len(),
{
    if locations.len() > 0 {
        let front = locations.drop_last();
        let before = crate::setup::line_groups(front);
        let groups = crate::setup::line_groups(locations);
        lemma_lines_named(front);
        if let Some(BreakpointLocation::Line { file, line }) = locations.last() {
            let n = lemma_group_place(before, file);
            crate::setup::lemma_with_line(before, file, line, n);
            crate::laws::setup::law_initial_lines_are_grouped(front, file, line);
            assert forall|i: int| 0 <= i < groups.len() implies (#[trigger] groups[i]).lines
                == lines_named(locations, groups[i].path.key@) by {
                if n < before.len() {
                    assert(before[i].path == groups[i].path);
                    if i == n {
                        assert(before[n].lines == lines_named(front, before[n].path.key@));
                    } else {
                        assert(!before[i].path.same_file(before[n].path));
                        assert(before[i].lines == lines_named(front, before[i].path.key@));
                    }
                } else if i < before.len() {
                    assert(groups[i] == before[i]);
                    assert(!before[i].path.same_file(file));
                    assert(before[i].lines == lines_named(front, before[i].path.key@));
                } else {
                    assert(lines_named(front, file.key@) == Seq::<u32>::empty());
                    assert(groups[i].lines =~= Seq::<u32>::empty().push(line));
                }
            }
            assert forall|key: Seq<char>|
                (forall|i: int|
                    0 <= i < groups.len() ==> (
                    #[trigger] groups[i]).path.key@ != key) implies #[trigger] lines_named(
                locations,
                key,
            ) == Seq::<u32>::empty() by {
                assert(groups[n].path.key@ == file.key@);
                assert forall|i: int| 0 <= i < before.len() implies (
                #[trigger] before[i]).path.key@ != key by {
                    assert(groups[i].path == before[i].path);
                }
                assert(lines_named(front, key) == Seq::<u32>::empty());
            }
        } else {
            assert(groups == before);
            assert forall|i: int| 0 <= i < groups.len() implies (#[trigger] groups[i]).lines
                == lines_named(locations, groups[i].path.key@) by {
                assert(before[i].lines == lines_named(front, before[i].path.key@));
            }
            assert forall|key: Seq<char>|
                (forall|i: int|
                    0 <= i < groups.len() ==> (
                    #[trigger] groups[i]).path.key@ != key) implies #[trigger] lines_named(
                locations,
                key,
            ) == Seq::<u32>::empty() by {
                assert(lines_named(front, key) == Seq::<u32>::empty());
            }
        }
    }
}

/// A group holds the lines that the initial breakpoints name in its file, each as often and in the
/// order in which they name it, under a path by which one of them names the file.
pub proof fn law_group_has_the_lines_of_its_file(
    locations: Seq<Option<BreakpointLocation>>,
    i: int,
)
    requires
        0 <= i < crate::setup::line_groups(locations).len(),
    ensures
        ({
            let group = crate::setup::line_groups(locations)[i];
            &&& group.lines == lines_named(locations, group.path.key@)
            &&& group.lines.len() > 0
            &&& exists|k: int|
                0 <= k < locations.len() && match #[trigger] locations[k] {
                    Some(BreakpointLocation::Line { file, .. }) => file == group.path,
                    _ => false,
                }
        }),
    decreases locations.len(),
{
    lemma_lines_named(locations);
    lemma_group_path(locations, i);
}

proof fn lemma_group_path(locations: Seq<Option<BreakpointLocation>>, i: int)
    requires
        0 <= i < crate::setup::line_groups(locations).len(),
    ensures
        crate::setup::line_groups(locations)[i].lines.len() > 0,
        exists|k: int|
            0 <= k < locations.len() && match #[trigger] locations[k] {
                Some(BreakpointLocation::Line { file, .. }) => file
                    == crate::setup::line_groups(locations)[i].path,
                _ => false,
            },
    decreases locations.len(),
{
    let front = locations.drop_last();
    let before = crate::setup::line_groups(front);
    let groups = crate::setup::line_groups(locations);
    let last = locations.len() - 1;
    if let Some(BreakpointLocation::Line { file, line }) = locations.last() {
        let n = lemma_group_place(before, file);
        crate::setup::lemma_with_line(before, file, line, n);
        if i >= before.len() {
            assert(locations[last] == locations.last());
            assert(groups[i].path == file);
        }
    }
    if i < before.len() {
        lemma_group_path(front, i);
        let k = choose|k: int|
            0 <= k < front.len() && match #[trigger] front[k] {
                Some(BreakpointLocation::Line { file, .. }) => file == before[i].path,
                _ => false,
            };
        assert(locations[k] == front[k]);
        assert(groups[i].path == before[i].path);
    }
}

/// Two paths name the same file exactly when they have the same key.
pub proof fn law_same_key_is_same_file(a: crate::paths::SourcePath, b: crate::paths::SourcePath)
    ensures
        a.same_file(b) <==> a.key@ == b.key@,
{
}

/// What is pending for a launch is what its initial breakpoints name. An attachment has none, and
/// goes straight on.
pub proof fn law_pending_breakpoints_are_the_initial_ones(handshake: Handshake)
    ensures
        handshake.ready_step(Ok(())) == crate::laws::setup::nth_request(handshake.pending(), 0),
        handshake.pending().handshake == handshake,
        match handshake.opening.plan {
            Plan::Launch { initial_breakpoints, .. } => {
                &&& handshake.pending().files == crate::setup::line_groups(initial_breakpoints@)
                &&& handshake.pending().functions == crate::setup::function_names(
                    initial_breakpoints@,
                )
            },
            Plan::Attach { .. } => handshake.ready_step(Ok(())) == (
            OpeningStepView::ConfigurationDone { next: handshake }),
        },
{
    reveal_with_fuel(crate::laws::setup::nth_request, 1);
}

} // verus!
