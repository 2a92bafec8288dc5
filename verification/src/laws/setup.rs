//! What holds of how sessions are opened.

use crate::breakpoints::BreakpointLocation;
use crate::error::ErrorView;
use crate::paths::SourcePath;
use crate::protocol::Capabilities;
use crate::setup::{
    AdapterConfig, Handshake, LineGroupView, Opening, OpeningStepView, PendingView,
};
use crate::state::SessionView;
use crate::step::Received;
use vstd::prelude::*;

verus! {

/// How far a session has come.
pub open spec fn phase(step: OpeningStepView) -> int {
    match step {
        OpeningStepView::FindAdapter { .. } => 0,
        OpeningStepView::Spawn { .. } | OpeningStepView::SpawnTcp { .. } => 1,
        OpeningStepView::Initialize { .. } => 2,
        OpeningStepView::Inspect { .. } => 3,
        OpeningStepView::Launch { .. } | OpeningStepView::Attach { .. } => 4,
        OpeningStepView::WaitInitialized { .. } => 5,
        OpeningStepView::SetBreakpoints { .. } => 6,
        OpeningStepView::SetFunctionBreakpoints { .. } => 7,
        OpeningStepView::ConfigurationDone { .. } => 8,
        OpeningStepView::TakeEvents { .. } => 9,
        OpeningStepView::Settle { .. } => 10,
        OpeningStepView::Failed(_) => 11,
    }
}

/// Whatever the adapter answers, each answer leads one phase on, or to failure: the launch or
/// attachment comes before the adapter can be configured, the breakpoints come before it is told
/// that it is, its events are taken over after that, and the wait for settling comes last.
pub proof fn law_opening_goes_forward(
    opening: Opening,
    handshake: Handshake,
    found: Result<AdapterConfig, Vec<String>>,
    capabilities: Result<Capabilities, ErrorView>,
    result: Result<(), ErrorView>,
    cwd: Option<Seq<char>>,
    sibling_exists: bool,
    taken: bool,
)
    ensures
        phase(opening.found_step(found)) == if found is Ok {
            1int
        } else {
            11
        },
        phase(opening.spawned_step(result)) == if result is Ok {
            2int
        } else {
            11
        },
        phase(opening.initialized_step(capabilities)) == if capabilities is Ok {
            if opening.plan is Launch {
                3int
            } else {
                4
            }
        } else {
            11
        },
        phase(handshake.start_step(cwd, sibling_exists)) == 4,
        phase(handshake.started_step(result)) == if result is Ok {
            5int
        } else {
            11
        },
        result is Ok ==> 6 <= phase(handshake.ready_step(result)) <= 8,
        result is Err ==> phase(handshake.ready_step(result)) == 11,
        phase(handshake.configured_step(result)) == if result is Ok {
            9int
        } else {
            11
        },
        phase(handshake.taken_step(taken)) == if taken {
            10int
        } else {
            11
        },
{
}

/// What the wait for settling makes of a session, round by round; `None` while it goes on.
pub open spec fn opened(
    session: SessionView,
    rounds: Seq<Received>,
    times: Seq<std::time::Instant>,
) -> Option<Result<SessionView, ErrorView>>
    decreases rounds.len(),
{
    if rounds.len() == 0 {
        None
    } else {
        let after = session.after_received(rounds[0], times[0]);
        match crate::state::settle_verdict(rounds[0]) {
            Some(result) => Some(crate::setup::settled_session(after, result)),
            None => opened(after, rounds.drop_first(), times.drop_first()),
        }
    }
}

/// A session opens only by settling. The first round that is no passing event decides: where the
/// connection has ended the session fails to open, where the time is up or the debuggee has
/// stopped it opens, with the state of that stop.
pub proof fn law_opening_ends_with_settling(
    handshake: Handshake,
    rounds: Seq<Received>,
    times: Seq<std::time::Instant>,
    n: int,
)
    requires
        times.len() == rounds.len(),
        crate::laws::session::decides(rounds, n),
    ensures
        handshake.taken_step(true) == (OpeningStepView::Settle { next: handshake.session() }),
        match opened(handshake.session(), rounds, times) {
            Some(Ok(session)) => match rounds[n] {
                Received::Event(_) => session.state is Stopped || session.state is Exited,
                Received::TimedOut => true,
                Received::Closed => false,
            },
            Some(Err(error)) => rounds[n] is Closed && error is AdapterCrashed,
            None => false,
        },
{
    lemma_opened(handshake.session(), rounds, times, n);
}

proof fn lemma_opened(
    session: SessionView,
    rounds: Seq<Received>,
    times: Seq<std::time::Instant>,
    n: int,
)
    requires
        times.len() == rounds.len(),
        crate::laws::session::decides(rounds, n),
    ensures
        match opened(session, rounds, times) {
            Some(Ok(session)) => match rounds[n] {
                Received::Event(_) => session.state is Stopped || session.state is Exited,
                Received::TimedOut => true,
                Received::Closed => false,
            },
            Some(Err(error)) => rounds[n] is Closed && error is AdapterCrashed,
            None => false,
        },
    decreases rounds.len(),
{
    if n > 0 {
        let rest = rounds.drop_first();
        assert(crate::laws::session::passes(rounds[0]));
        assert forall|k: int| 0 <= k < n - 1 implies crate::laws::session::passes(
            #[trigger] rest[k],
        ) by {
            assert(rest[k] == rounds[k + 1]);
        }
        lemma_opened(
            session.after_received(rounds[0], times[0]),
            rest,
            times.drop_first(),
            n - 1,
        );
    }
}

/// The request after `n` answers on initial breakpoints, whatever those answers were.
pub open spec fn nth_request(pending: PendingView, n: nat) -> OpeningStepView
    decreases n,
{
    if n == 0 {
        pending.next_step()
    } else {
        match pending.next_step() {
            OpeningStepView::SetBreakpoints { next, .. } => nth_request(next, (n - 1) as nat),
            OpeningStepView::SetFunctionBreakpoints { next, .. } => nth_request(
                next,
                (n - 1) as nat,
            ),
            other => other,
        }
    }
}

/// The initial breakpoints are sent file by file in order, then those on functions in one request
/// if there are any, and then the adapter is told that it is configured.
pub proof fn law_initial_breakpoints_are_sent(pending: PendingView, n: nat)
    ensures
        n < pending.files.len() ==> match nth_request(pending, n) {
            OpeningStepView::SetBreakpoints { file, breakpoints, .. } => {
                &&& file == pending.files[n as int].path
                &&& breakpoints.len() == pending.files[n as int].lines.len()
                &&& forall|k: int|
                    0 <= k < breakpoints.len() ==> {
                        &&& (#[trigger] breakpoints[k]).line == pending.files[n as int].lines[k]
                        &&& breakpoints[k].column is None
                        &&& breakpoints[k].condition is None
                        &&& breakpoints[k].hit_condition is None
                        &&& breakpoints[k].log_message is None
                    }
            },
            _ => false,
        },
        n == pending.files.len() && pending.functions.len() > 0 ==> match nth_request(pending, n) {
            OpeningStepView::SetFunctionBreakpoints { breakpoints, .. } => {
                &&& breakpoints.len() == pending.functions.len()
                &&& forall|k: int|
                    0 <= k < breakpoints.len() ==> {
                        &&& (#[trigger] breakpoints[k]).name == pending.functions[k]
                        &&& breakpoints[k].condition is None
                        &&& breakpoints[k].hit_condition is None
                    }
            },
            _ => false,
        },
        n == pending.files.len() && pending.functions.len() == 0 ==> nth_request(pending, n) == (
        OpeningStepView::ConfigurationDone { next: pending.handshake }),
        n == pending.files.len() + 1 && pending.functions.len() > 0 ==> nth_request(pending, n) == (
        OpeningStepView::ConfigurationDone { next: pending.handshake }),
    decreases n,
{
    if n > 0 {
        if pending.files.len() > 0 {
            let next = PendingView { files: pending.files.drop_first(), ..pending };
            law_initial_breakpoints_are_sent(next, (n - 1) as nat);
            if n < pending.files.len() {
                assert(next.files[n - 1] == pending.files[n as int]);
            }
        } else if pending.functions.len() > 0 {
            let next = PendingView { functions: Seq::empty(), ..pending };
            law_initial_breakpoints_are_sent(next, (n - 1) as nat);
        }
    }
}

/// Whether a group for the file has the line.
pub open spec fn groups_have(groups: Seq<LineGroupView>, file: SourcePath, line: u32) -> bool {
    exists|i: int|
        0 <= i < groups.len() && (#[trigger] groups[i]).path.same_file(file)
            && groups[i].lines.contains(line)
}

/// Whether no file has more than one group.
pub open spec fn groups_distinct(groups: Seq<LineGroupView>) -> bool {
    forall|i: int, k: int|
        #![trigger groups[i], groups[k]]
        0 <= i < groups.len() && 0 <= k < groups.len() && groups[i].path.same_file(groups[k].path)
            ==> i == k
}

proof fn lemma_push_line(lines: Seq<u32>, new: u32, x: u32)
    ensures
        lines.push(new).contains(x) <==> lines.contains(x) || x == new,
{
    if lines.contains(x) {
        let j = choose|j: int| 0 <= j < lines.len() && lines[j] == x;
        assert(lines.push(new)[j] == x);
    }
    if x == new {
        assert(lines.push(new)[lines.len() as int] == x);
    }
    if lines.push(new).contains(x) && x != new {
        let j = choose|j: int| 0 <= j < lines.push(new).len() && lines.push(new)[j] == x;
        assert(lines[j] == x);
    }
}

proof fn lemma_with_line_has(
    groups: Seq<LineGroupView>,
    new_file: SourcePath,
    new_line: u32,
    file: SourcePath,
    line: u32,
)
    ensures
        groups_have(crate::setup::with_line(groups, new_file, new_line), file, line) <==> {
            ||| groups_have(groups, file, line)
            ||| new_file.same_file(file) && line == new_line
        },
        forall|i: int|
            0 <= i < crate::setup::with_line(groups, new_file, new_line).len() ==> {
                ||| i < groups.len() && (#[trigger] crate::setup::with_line(
                    groups,
                    new_file,
                    new_line,
                )[i]).path == groups[i].path
                ||| i == groups.len() && crate::setup::with_line(
                    groups,
                    new_file,
                    new_line,
                )[i].path == new_file
            },
        crate::setup::with_line(groups, new_file, new_line).len() > groups.len() ==> forall|k: int|
            0 <= k < groups.len() ==> !(#[trigger] groups[k]).path.same_file(new_file),
        groups.len() <= crate::setup::with_line(groups, new_file, new_line).len() <= groups.len()
            + 1,
    decreases groups.len(),
{
    let after = crate::setup::with_line(groups, new_file, new_line);
    if groups.len() == 0 {
        lemma_push_line(Seq::empty(), new_line, line);
        assert(seq![new_line] =~= Seq::<u32>::empty().push(new_line));
        assert(after[0].lines == seq![new_line]);
        assert(groups_have(after, file, line) <==> new_file.same_file(file) && line == new_line);
    } else if groups[0].path.same_file(new_file) {
        lemma_push_line(groups[0].lines, new_line, line);
        if groups_have(groups, file, line) {
            let i = choose|i: int|
                0 <= i < groups.len() && (#[trigger] groups[i]).path.same_file(file)
                    && groups[i].lines.contains(line);
            assert(after[i].path.same_file(file) && after[i].lines.contains(line));
        }
        if new_file.same_file(file) && line == new_line {
            assert(after[0].path.same_file(file) && after[0].lines.contains(line));
        }
        if groups_have(after, file, line) {
            let i = choose|i: int|
                0 <= i < after.len() && (#[trigger] after[i]).path.same_file(file)
                    && after[i].lines.contains(line);
            assert(groups[i].path.same_file(file));
        }
    } else {
        let rest = groups.drop_first();
        let tail = crate::setup::with_line(rest, new_file, new_line);
        lemma_with_line_has(rest, new_file, new_line, file, line);
        assert(after == seq![groups[0]] + tail);
        if groups_have(groups, file, line) {
            let i = choose|i: int|
                0 <= i < groups.len() && (#[trigger] groups[i]).path.same_file(file)
                    && groups[i].lines.contains(line);
            if i > 0 {
                assert(rest[i - 1] == groups[i]);
                assert(groups_have(rest, file, line));
                let k = choose|k: int|
                    0 <= k < tail.len() && (#[trigger] tail[k]).path.same_file(file)
                        && tail[k].lines.contains(line);
                assert(after[k + 1] == tail[k]);
            } else {
                assert(after[0] == groups[0]);
            }
        }
        if new_file.same_file(file) && line == new_line {
            let k = choose|k: int|
                0 <= k < tail.len() && (#[trigger] tail[k]).path.same_file(file)
                    && tail[k].lines.contains(line);
            assert(after[k + 1] == tail[k]);
        }
        if groups_have(after, file, line) {
            let i = choose|i: int|
                0 <= i < after.len() && (#[trigger] after[i]).path.same_file(file)
                    && after[i].lines.contains(line);
            if i > 0 {
                assert(tail[i - 1] == after[i]);
                assert(groups_have(tail, file, line));
                if groups_have(rest, file, line) {
                    let k = choose|k: int|
                        0 <= k < rest.len() && (#[trigger] rest[k]).path.same_file(file)
                            && rest[k].lines.contains(line);
                    assert(groups[k + 1] == rest[k]);
                }
            } else {
                assert(groups[0].lines.contains(line));
            }
        }
        assert forall|i: int| 0 <= i < after.len() implies {
            ||| i < groups.len() && (#[trigger] after[i]).path == groups[i].path
            ||| i == groups.len() && after[i].path == new_file
        } by {
            if i > 0 {
                assert(after[i] == tail[i - 1]);
            }
        }
        if after.len() > groups.len() {
            assert forall|k: int| 0 <= k < groups.len() implies !(
            #[trigger] groups[k]).path.same_file(new_file) by {
                if k > 0 {
                    assert(rest[k - 1] == groups[k]);
                }
            }
        }
    }
}

/// Whether the line of the file is among the initial breakpoints.
pub open spec fn names_line(
    locations: Seq<Option<BreakpointLocation>>,
    file: SourcePath,
    line: u32,
) -> bool {
    exists|i: int|
        0 <= i < locations.len() && match #[trigger] locations[i] {
            Some(BreakpointLocation::Line { file: f, line: l }) => f.same_file(file) && l == line,
            _ => false,
        }
}

/// Every file comes up in one group, and the groups hold exactly the lines that the initial
/// breakpoints name.
pub proof fn law_initial_lines_are_grouped(
    locations: Seq<Option<BreakpointLocation>>,
    file: SourcePath,
    line: u32,
)
    ensures
        groups_distinct(crate::setup::line_groups(locations)),
        groups_have(crate::setup::line_groups(locations), file, line) <==> names_line(
            locations,
            file,
            line,
        ),
    decreases locations.len(),
{
    let groups = crate::setup::line_groups(locations);
    if locations.len() > 0 {
        let front = locations.drop_last();
        let before = crate::setup::line_groups(front);
        law_initial_lines_are_grouped(front, file, line);
        if let Some(BreakpointLocation::Line { file: f, line: l }) = locations.last() {
            lemma_with_line_has(before, f, l, file, line);
            assert forall|i: int, k: int|
                #![trigger groups[i], groups[k]]
                0 <= i < groups.len() && 0 <= k < groups.len() && groups[i].path.same_file(
                    groups[k].path,
                ) implies i == k by {
                assert(i < before.len() && k < before.len() ==> before[i].path.same_file(
                    before[k].path,
                ));
            }
        }
        if names_line(front, file, line) {
            let i = choose|i: int|
                0 <= i < front.len() && match #[trigger] front[i] {
                    Some(BreakpointLocation::Line { file: f, line: l }) => f.same_file(file) && l
                        == line,
                    _ => false,
                };
            assert(locations[i] == front[i]);
        }
        if names_line(locations, file, line) {
            let i = choose|i: int|
                0 <= i < locations.len() && match #[trigger] locations[i] {
                    Some(BreakpointLocation::Line { file: f, line: l }) => f.same_file(file) && l
                        == line,
                    _ => false,
                };
            if i < front.len() {
                assert(front[i] == locations[i]);
            }
        }
        if let Some(BreakpointLocation::Line { file: f, line: l }) = locations.last() {
            if f.same_file(file) && l == line {
                assert(locations[locations.len() - 1] == locations.last());
            }
        }
    }
}

/// An adapter that needs nothing special is told nothing special.
pub proof fn law_plain_adapter_gets_plain_arguments(
    adapter_name: Seq<char>,
    program: Seq<char>,
    args: Seq<Seq<char>>,
    stop_on_entry: bool,
    cwd: Option<Seq<char>>,
    typescript: bool,
)
    requires
        !crate::setup::is_python(adapter_name),
        !crate::setup::is_go(adapter_name),
        !crate::setup::is_gdb(adapter_name),
        !crate::setup::is_js_debug(adapter_name),
    ensures
        ({
            let arguments = crate::setup::launch_arguments(
                adapter_name,
                program,
                args,
                stop_on_entry,
                cwd,
                typescript,
            );
            &&& arguments.request is None
            &&& arguments.console is None
            &&& arguments.just_my_code is None
            &&& arguments.mode is None
            &&& arguments.stop_at_entry is None
            &&& arguments.stop_at_beginning_of_main_subprogram is None
            &&& arguments.type_attr is None
            &&& arguments.source_maps is None
        }),
{
}

/// A new session has no breakpoints and no output; a launched program runs, and a process that was
/// attached to has stopped for that reason.
pub proof fn law_new_session(handshake: Handshake)
    ensures
        ({
            let session = handshake.session();
            &&& session.breakpoints.wf()
            &&& session.breakpoints.infos().len() == 0
            &&& session.output.within_limits()
            &&& session.output.events.len() == 0
            &&& session.launched == handshake.opening.plan is Launch
            &&& handshake.opening.plan is Launch ==> session.state is Running
            &&& handshake.opening.plan is Attach ==> session.state is Stopped
                && session.stopped_reason == Some("attach"@)
        }),
{
}

} // verus!
