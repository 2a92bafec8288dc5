//! What the adapter is asked to set, and what its answers and reports change.

use crate::breakpoints::{
    BreakpointInfo, BreakpointLocation, FileView, StoredBreakpoint, TableView,
};
use crate::error::ErrorView;
use crate::paths::SourcePath;
use crate::protocol::{Breakpoint, Event, FunctionBreakpointView, SourceBreakpointView};
use crate::state::SessionView;
use crate::step::{AfterBreakpointsView, OutcomeView, StepView};
use vstd::prelude::*;

verus! {

/// Whether an optional text of a request is the one that was asked for: there exactly where one
/// was given, and then the same.
pub open spec fn same_text(asked: Option<String>, sent: Option<Seq<char>>) -> bool {
    match (asked, sent) {
        (Some(text), Some(characters)) => characters == text@,
        (None, None) => true,
        _ => false,
    }
}

/// Whether the hit condition of a request is the hit count that was asked for, in decimal: there
/// exactly where one was given.
pub open spec fn same_count(asked: Option<u32>, sent: Option<Seq<char>>) -> bool {
    match (asked, sent) {
        (Some(n), Some(characters)) => crate::laws::text::writes(characters, n as int),
        (None, None) => true,
        _ => false,
    }
}

/// Whether `request` asks for the line breakpoint `bp` and nothing besides.
pub open spec fn asks_for_line(request: SourceBreakpointView, bp: StoredBreakpoint) -> bool {
    &&& match bp.location {
        BreakpointLocation::Line { line, .. } => request.line == line,
        BreakpointLocation::Function { .. } => false,
    }
    &&& same_text(bp.condition, request.condition)
    &&& same_count(bp.hit_count, request.hit_condition)
    &&& request.column is None
    &&& request.log_message is None
}

/// Whether `request` asks for the function breakpoint `bp`.
pub open spec fn asks_for_function(request: FunctionBreakpointView, bp: StoredBreakpoint) -> bool {
    &&& match bp.location {
        BreakpointLocation::Function { name } => request.name == name@,
        BreakpointLocation::Line { .. } => false,
    }
    &&& same_text(bp.condition, request.condition)
    &&& same_count(bp.hit_count, request.hit_condition)
}

/// How many of the first `i` breakpoints are enabled.
pub open spec fn enabled_before(bps: Seq<StoredBreakpoint>, i: int) -> int
    decreases i,
{
    if i <= 0 {
        0
    } else if bps[i - 1].enabled {
        enabled_before(bps, i - 1) + 1
    } else {
        enabled_before(bps, i - 1)
    }
}

/// Whether `requests` asks for the enabled ones of the line breakpoints `bps`, in order, and for
/// no others.
pub open spec fn asks_for_lines(
    requests: Seq<SourceBreakpointView>,
    bps: Seq<StoredBreakpoint>,
) -> bool {
    &&& requests.len() == enabled_before(bps, bps.len() as int)
    &&& forall|i: int|
        0 <= i < bps.len() && (#[trigger] bps[i]).enabled ==> asks_for_line(
            requests[enabled_before(bps, i)],
            bps[i],
        )
}

/// Whether `requests` asks for the enabled ones of the function breakpoints `bps`, in order, and
/// for no others.
pub open spec fn asks_for_functions(
    requests: Seq<FunctionBreakpointView>,
    bps: Seq<StoredBreakpoint>,
) -> bool {
    &&& requests.len() == enabled_before(bps, bps.len() as int)
    &&& forall|i: int|
        0 <= i < bps.len() && (#[trigger] bps[i]).enabled ==> asks_for_function(
            requests[enabled_before(bps, i)],
            bps[i],
        )
}

proof fn lemma_enabled_before(bps: Seq<StoredBreakpoint>, longer: Seq<StoredBreakpoint>, i: int)
    requires
        0 <= i <= bps.len() <= longer.len(),
        forall|k: int| 0 <= k < bps.len() ==> bps[k] == longer[k],
    ensures
        enabled_before(bps, i) == enabled_before(longer, i),
        0 <= enabled_before(bps, i) <= i,
    decreases i,
{
    if i > 0 {
        lemma_enabled_before(bps, longer, i - 1);
        assert(bps[i - 1] == longer[i - 1]);
    }
}

proof fn lemma_enabled_before_strict(bps: Seq<StoredBreakpoint>, i: int, k: int)
    requires
        0 <= i < k <= bps.len(),
        bps[i].enabled,
    ensures
        enabled_before(bps, i) < enabled_before(bps, k),
    decreases k,
{
    if k > i + 1 {
        lemma_enabled_before_strict(bps, i, k - 1);
    }
}

proof fn lemma_line_request(bp: StoredBreakpoint)
    requires
        bp.location is Line,
    ensures
        asks_for_line(crate::breakpoints::line_request(bp), bp),
{
    if let Some(n) = bp.hit_count {
        crate::laws::text::law_decimal_reads_back(n as nat);
    }
}

proof fn lemma_function_request(bp: StoredBreakpoint)
    requires
        bp.location is Function,
    ensures
        asks_for_function(crate::breakpoints::function_request(bp), bp),
{
    if let Some(n) = bp.hit_count {
        crate::laws::text::law_decimal_reads_back(n as nat);
    }
}

proof fn lemma_line_requests(bps: Seq<StoredBreakpoint>)
    requires
        forall|i: int| 0 <= i < bps.len() ==> (#[trigger] bps[i]).location is Line,
    ensures
        asks_for_lines(crate::breakpoints::line_requests(bps), bps),
    decreases bps.len(),
{
    if bps.len() == 0 {
        reveal(Seq::filter);
    } else {
        let front = bps.drop_last();
        let bp = bps.last();
        let n = front.len() as int;
        lemma_line_requests(front);
        assert(front.push(bp) =~= bps);
        crate::breakpoints::lemma_requests_push(front, bp);
        assert(bps[n].location is Line);
        lemma_line_request(bp);
        lemma_enabled_before(front, bps, n);
        assert forall|i: int|
            0 <= i < bps.len() && (#[trigger] bps[i]).enabled implies asks_for_line(
            crate::breakpoints::line_requests(bps)[enabled_before(bps, i)],
            bps[i],
        ) by {
            if i < n {
                lemma_enabled_before(front, bps, i);
                assert(front[i] == bps[i]);
                lemma_enabled_before_strict(front, i, n);
            }
        }
    }
}

proof fn lemma_function_requests(bps: Seq<StoredBreakpoint>)
    requires
        forall|i: int| 0 <= i < bps.len() ==> (#[trigger] bps[i]).location is Function,
    ensures
        asks_for_functions(crate::breakpoints::function_requests(bps), bps),
    decreases bps.len(),
{
    if bps.len() == 0 {
        reveal(Seq::filter);
    } else {
        let front = bps.drop_last();
        let bp = bps.last();
        let n = front.len() as int;
        lemma_function_requests(front);
        assert(front.push(bp) =~= bps);
        crate::breakpoints::lemma_requests_push(front, bp);
        assert(bps[n].location is Function);
        lemma_function_request(bp);
        lemma_enabled_before(front, bps, n);
        assert forall|i: int|
            0 <= i < bps.len() && (#[trigger] bps[i]).enabled implies asks_for_function(
            crate::breakpoints::function_requests(bps)[enabled_before(bps, i)],
            bps[i],
        ) by {
            if i < n {
                lemma_enabled_before(front, bps, i);
                assert(front[i] == bps[i]);
                lemma_enabled_before_strict(front, i, n);
            }
        }
    }
}

/// Whether `step` has the adapter set exactly the enabled breakpoints that `table` holds for
/// `file`, each with its line, its condition and its hit count.
pub open spec fn sets_lines(step: StepView, table: TableView, file: SourcePath) -> bool {
    match step {
        StepView::SetBreakpoints { file: named, breakpoints, .. } => {
            &&& named == file
            &&& forall|i: int|
                0 <= i < table.files.len() && (#[trigger] table.files[i]).path.key@ == file.key@
                    ==> asks_for_lines(breakpoints, table.files[i].breakpoints)
            &&& (forall|i: int|
                0 <= i < table.files.len() ==> (#[trigger] table.files[i]).path.key@ != file.key@)
                ==> breakpoints.len() == 0
        },
        _ => false,
    }
}

/// Whether `step` has the adapter set exactly the enabled breakpoints that `table` holds on
/// functions, each with its name, its condition and its hit count.
pub open spec fn sets_functions(step: StepView, table: TableView) -> bool {
    match step {
        StepView::SetFunctionBreakpoints { breakpoints, .. } => asks_for_functions(
            breakpoints,
            table.functions,
        ),
        _ => false,
    }
}

proof fn lemma_resend(session: SessionView, file: Option<SourcePath>, after: AfterBreakpointsView)
    requires
        session.breakpoints.wf(),
    ensures
        match file {
            Some(file) => sets_lines(session.resend(Some(file), after), session.breakpoints, file),
            None => sets_functions(session.resend(None, after), session.breakpoints),
        },
        match session.resend(file, after) {
            StepView::SetBreakpoints { after: a, .. } => a == after,
            StepView::SetFunctionBreakpoints { after: a, .. } => a == after,
            _ => false,
        },
{
    let table = session.breakpoints;
    match file {
        Some(file) => {
            assert forall|i: int|
                0 <= i < table.files.len() && (
                #[trigger] table.files[i]).path.key@ == file.key@ implies asks_for_lines(
                crate::breakpoints::line_requests(table.breakpoints_of(file.key@)),
                table.files[i].breakpoints,
            ) by {
                crate::breakpoints::lemma_place(table, file.key@, i);
                lemma_line_requests(table.files[i].breakpoints);
            }
            if forall|i: int|
                0 <= i < table.files.len() ==> (#[trigger] table.files[i]).path.key@ != file.key@ {
                assert(!table.has_file(file.key@));
                reveal(Seq::filter);
            }
        },
        None => {
            lemma_function_requests(table.functions);
        },
    }
}

/// A new breakpoint is asked for at the end of the request: on the line or the function that was
/// named, with the text of the condition and the decimal text of the hit count that were given,
/// each left out only where none was. What goes before it in the request is what would have been
/// asked for without it.
pub proof fn law_new_breakpoint_is_asked_for(
    session: SessionView,
    location: BreakpointLocation,
    condition: Option<String>,
    hit_count: Option<u32>,
    before: AfterBreakpointsView,
)
    requires
        session.breakpoints.wf(),
        session.breakpoints.next_id < u32::MAX,
    ensures
        ({
            let (next, step) = session.add_breakpoint(location, condition, hit_count);
            &&& next == (SessionView { breakpoints: next.breakpoints, ..session })
            &&& next.breakpoints.next_id == session.breakpoints.next_id + 1
            &&& match location {
                BreakpointLocation::Line { file, line } => match (
                    step,
                    session.resend(Some(file), before),
                ) {
                    (
                        StepView::SetBreakpoints { file: f, breakpoints, after },
                        StepView::SetBreakpoints { breakpoints: earlier, .. },
                    ) => {
                        &&& f == file
                        &&& breakpoints.len() == earlier.len() + 1
                        &&& breakpoints.drop_last() == earlier
                        &&& breakpoints.last().line == line
                        &&& breakpoints.last().column is None
                        &&& breakpoints.last().log_message is None
                        &&& same_text(condition, breakpoints.last().condition)
                        &&& same_count(hit_count, breakpoints.last().hit_condition)
                        &&& after == (AfterBreakpointsView::Added {
                            id: session.breakpoints.next_id,
                            file: Some(file),
                        })
                        &&& sets_lines(step, next.breakpoints, file)
                    },
                    _ => false,
                },
                BreakpointLocation::Function { name } => match (
                    step,
                    session.resend(None, before),
                ) {
                    (
                        StepView::SetFunctionBreakpoints { breakpoints, after },
                        StepView::SetFunctionBreakpoints { breakpoints: earlier, .. },
                    ) => {
                        &&& breakpoints.len() == earlier.len() + 1
                        &&& breakpoints.drop_last() == earlier
                        &&& breakpoints.last().name == name@
                        &&& same_text(condition, breakpoints.last().condition)
                        &&& same_count(hit_count, breakpoints.last().hit_condition)
                        &&& after == (AfterBreakpointsView::Added {
                            id: session.breakpoints.next_id,
                            file: None,
                        })
                        &&& sets_functions(step, next.breakpoints)
                    },
                    _ => false,
                },
            }
        }),
{
    let table = session.breakpoints;
    let (next, step) = session.add_breakpoint(location, condition, hit_count);
    let new = crate::breakpoints::fresh(table.next_id, location, condition, hit_count);
    crate::breakpoints::lemma_with_breakpoint_wf(table, location, condition, hit_count);
    match location {
        BreakpointLocation::Line { file, .. } => {
            let p = if table.has_file(file.key@) {
                table.place_of(file.key@)
            } else {
                table.files.len() as int
            };
            assert(0 <= p < next.breakpoints.files.len());
            assert(next.breakpoints.files[p].path.key@ == file.key@);
            crate::breakpoints::lemma_place(next.breakpoints, file.key@, p);
            let earlier = table.breakpoints_of(file.key@);
            assert(next.breakpoints.breakpoints_of(file.key@) =~= earlier.push(new));
            crate::breakpoints::lemma_requests_push(earlier, new);
            let sent = crate::breakpoints::line_requests(earlier);
            let asked = crate::breakpoints::line_request(new);
            assert(sent.push(asked).drop_last() =~= sent);
            lemma_line_request(new);
            lemma_resend(
                next,
                Some(file),
                AfterBreakpointsView::Added { id: table.next_id, file: Some(file) },
            );
        },
        BreakpointLocation::Function { .. } => {
            crate::breakpoints::lemma_requests_push(table.functions, new);
            let sent = crate::breakpoints::function_requests(table.functions);
            let asked = crate::breakpoints::function_request(new);
            assert(sent.push(asked).drop_last() =~= sent);
            lemma_function_request(new);
            lemma_resend(
                next,
                None,
                AfterBreakpointsView::Added { id: table.next_id, file: None },
            );
        },
    }
}

/// Removing a line breakpoint takes out that one and no other, and has the adapter set what is
/// left in its file.
pub proof fn law_removed_line_is_taken_out(session: SessionView, i: int, j: int)
    requires
        session.breakpoints.wf(),
        0 <= i < session.breakpoints.files.len(),
        0 <= j < session.breakpoints.files[i].breakpoints.len(),
    ensures
        ({
            let table = session.breakpoints;
            let (next, step) = session.remove_breakpoint(table.files[i].breakpoints[j].id);
            &&& next == (SessionView { breakpoints: next.breakpoints, ..session })
            &&& next.breakpoints == (TableView {
                files: table.files.update(
                    i,
                    FileView {
                        path: table.files[i].path,
                        breakpoints: table.files[i].breakpoints.remove(j),
                    },
                ),
                functions: table.functions,
                next_id: table.next_id,
            })
            &&& sets_lines(step, next.breakpoints, table.files[i].path)
            &&& step matches StepView::SetBreakpoints { after, .. } && after is Removed
        }),
{
    let table = session.breakpoints;
    let id = table.files[i].breakpoints[j].id;
    assert(table.file_has(i, id));
    crate::breakpoints::lemma_file_of(table, i, id);
    crate::breakpoints::lemma_without_line(table, i, j);
    crate::breakpoints::lemma_without_wf(table, id);
    let next = session.remove_breakpoint(id).0;
    lemma_resend(next, Some(table.files[i].path), AfterBreakpointsView::Removed);
}

/// Removing a function breakpoint takes out that one and no other, and has the adapter set the
/// function breakpoints that are left.
pub proof fn law_removed_function_is_taken_out(session: SessionView, j: int)
    requires
        session.breakpoints.wf(),
        0 <= j < session.breakpoints.functions.len(),
    ensures
        ({
            let table = session.breakpoints;
            let (next, step) = session.remove_breakpoint(table.functions[j].id);
            &&& next == (SessionView { breakpoints: next.breakpoints, ..session })
            &&& next.breakpoints == (TableView {
                files: table.files,
                functions: table.functions.remove(j),
                next_id: table.next_id,
            })
            &&& sets_functions(step, next.breakpoints)
            &&& step matches StepView::SetFunctionBreakpoints { after, .. } && after is Removed
        }),
{
    let table = session.breakpoints;
    let id = table.functions[j].id;
    lemma_on_function(table, j);
    crate::breakpoints::lemma_without_function(table, j);
    crate::breakpoints::lemma_without_wf(table, id);
    let next = session.remove_breakpoint(id).0;
    lemma_resend(next, None, AfterBreakpointsView::Removed);
}

proof fn lemma_on_function(table: TableView, j: int)
    requires
        table.wf(),
        0 <= j < table.functions.len(),
    ensures
        table.has(table.functions[j].id),
        table.file_of(table.functions[j].id) is None,
{
    let id = table.functions[j].id;
    assert(table.has_function(id));
    if table.has_line(id) {
        let i = choose|i: int| 0 <= i < table.files.len() && #[trigger] table.file_has(i, id);
        let l = choose|l: int|
            0 <= l < table.files[i].breakpoints.len() && #[trigger] table.files[i].breakpoints[l].id
                == id;
        assert(table.files[i].breakpoints[l].id != table.functions[j].id);
    }
}

/// Whether two breakpoints are the same but for being switched on or off.
pub open spec fn same_but_switched(a: StoredBreakpoint, b: StoredBreakpoint) -> bool {
    &&& a.id == b.id
    &&& a.location == b.location
    &&& a.condition == b.condition
    &&& a.hit_count == b.hit_count
    &&& a.verified == b.verified
    &&& a.actual_line == b.actual_line
    &&& a.message == b.message
}

/// Switching a line breakpoint switches that one and changes nothing else, and has the adapter
/// set the breakpoints of its file that are on.
pub proof fn law_switched_line_is_sent_again(
    session: SessionView,
    i: int,
    j: int,
    enabled: bool,
)
    requires
        session.breakpoints.wf(),
        0 <= i < session.breakpoints.files.len(),
        0 <= j < session.breakpoints.files[i].breakpoints.len(),
    ensures
        ({
            let table = session.breakpoints;
            let id = table.files[i].breakpoints[j].id;
            let (next, step) = session.set_breakpoint_enabled(id, enabled);
            let after = next.breakpoints;
            let file = table.files[i].path;
            &&& next == (SessionView { breakpoints: after, ..session })
            &&& after.next_id == table.next_id
            &&& after.functions == table.functions
            &&& after.files.len() == table.files.len()
            &&& forall|k: int|
                0 <= k < table.files.len() && k != i ==> #[trigger] after.files[k] == table.files[k]
            &&& after.files[i].path == file
            &&& after.files[i].breakpoints.len() == table.files[i].breakpoints.len()
            &&& forall|l: int|
                0 <= l < table.files[i].breakpoints.len() && l != j
                    ==> #[trigger] after.files[i].breakpoints[l] == table.files[i].breakpoints[l]
            &&& same_but_switched(after.files[i].breakpoints[j], table.files[i].breakpoints[j])
            &&& after.files[i].breakpoints[j].enabled == enabled
            &&& sets_lines(step, after, file)
            &&& step matches StepView::SetBreakpoints { after: purpose, .. } && purpose == (
            AfterBreakpointsView::Switched { file: Some(file) })
        }),
{
    let table = session.breakpoints;
    let id = table.files[i].breakpoints[j].id;
    assert(table.file_has(i, id));
    crate::breakpoints::lemma_file_of(table, i, id);
    crate::breakpoints::lemma_with_switched_wf(table, id, enabled);
    let next = session.set_breakpoint_enabled(id, enabled).0;
    let after = next.breakpoints;
    assert forall|k: int| 0 <= k < table.files.len() && k != i implies #[trigger] after.files[k]
        == table.files[k] by {
        assert forall|l: int| 0 <= l < table.files[k].breakpoints.len() implies (
        #[trigger] table.files[k].breakpoints[l]).id != id by {
            assert(table.files[i].breakpoints[j].id == id);
        }
        assert(after.files[k].breakpoints =~= table.files[k].breakpoints);
    }
    assert forall|l: int|
        0 <= l < table.files[i].breakpoints.len() && l
            != j implies #[trigger] after.files[i].breakpoints[l]
        == table.files[i].breakpoints[l] by {
        assert(table.files[i].breakpoints[l].id != id);
    }
    assert forall|l: int| 0 <= l < table.functions.len() implies (
    #[trigger] table.functions[l]).id != id by {
        assert(table.files[i].breakpoints[j].id != table.functions[l].id);
    }
    assert(after.functions =~= table.functions);
    let file = table.files[i].path;
    lemma_resend(next, Some(file), AfterBreakpointsView::Switched { file: Some(file) });
}

/// Switching a function breakpoint switches that one and changes nothing else, and has the
/// adapter set the function breakpoints that are on.
pub proof fn law_switched_function_is_sent_again(session: SessionView, j: int, enabled: bool)
    requires
        session.breakpoints.wf(),
        0 <= j < session.breakpoints.functions.len(),
    ensures
        ({
            let table = session.breakpoints;
            let id = table.functions[j].id;
            let (next, step) = session.set_breakpoint_enabled(id, enabled);
            let after = next.breakpoints;
            &&& next == (SessionView { breakpoints: after, ..session })
            &&& after.next_id == table.next_id
            &&& after.files == table.files
            &&& after.functions.len() == table.functions.len()
            &&& forall|l: int|
                0 <= l < table.functions.len() && l != j ==> #[trigger] after.functions[l]
                    == table.functions[l]
            &&& same_but_switched(after.functions[j], table.functions[j])
            &&& after.functions[j].enabled == enabled
            &&& sets_functions(step, after)
            &&& step matches StepView::SetFunctionBreakpoints { after: purpose, .. } && purpose == (
            AfterBreakpointsView::Switched { file: None })
        }),
{
    let table = session.breakpoints;
    let id = table.functions[j].id;
    lemma_on_function(table, j);
    crate::breakpoints::lemma_with_switched_wf(table, id, enabled);
    let next = session.set_breakpoint_enabled(id, enabled).0;
    let after = next.breakpoints;
    assert forall|k: int| 0 <= k < table.files.len() implies #[trigger] after.files[k]
        == table.files[k] by {
        assert forall|l: int| 0 <= l < table.files[k].breakpoints.len() implies (
        #[trigger] table.files[k].breakpoints[l]).id != id by {
            assert(table.files[k].breakpoints[l].id != table.functions[j].id);
        }
        assert(after.files[k].breakpoints =~= table.files[k].breakpoints);
    }
    assert(after.files =~= table.files);
    lemma_resend(next, None, AfterBreakpointsView::Switched { file: None });
}

/// A number that no breakpoint has can be neither removed nor switched; the refusal names it and
/// changes nothing.
pub proof fn law_unknown_number_is_refused(session: SessionView, id: u32, enabled: bool)
    requires
        forall|i: int, j: int|
            #![trigger session.breakpoints.files[i].breakpoints[j]]
            0 <= i < session.breakpoints.files.len() && 0 <= j
                < session.breakpoints.files[i].breakpoints.len()
                ==> session.breakpoints.files[i].breakpoints[j].id != id,
        forall|j: int|
            0 <= j < session.breakpoints.functions.len() ==> (
            #[trigger] session.breakpoints.functions[j]).id != id,
    ensures
        session.remove_breakpoint(id) == (
            session,
            StepView::Done(Err(ErrorView::BreakpointNotFound { id })),
        ),
        session.set_breakpoint_enabled(id, enabled) == (
            session,
            StepView::Done(Err(ErrorView::BreakpointNotFound { id })),
        ),
        session.breakpoints.lookup(id) == Err::<BreakpointInfo, ErrorView>(
            ErrorView::BreakpointNotFound { id },
        ),
{
}

/// Removing all breakpoints asks the adapter once for each file, in order, to keep none of its
/// breakpoints, and then to keep none on functions.
pub proof fn law_removal_goes_through_the_files(
    session: SessionView,
    replies: Seq<Seq<Breakpoint>>,
)
    requires
        replies.len() <= session.breakpoints.files.len(),
    ensures
        ({
            let (start, first) = session.remove_all_breakpoints();
            let n = replies.len() as int;
            match crate::laws::breakpoints::answered(start, first, replies).1 {
                StepView::SetBreakpoints { file, breakpoints, .. } => {
                    &&& n < session.breakpoints.files.len()
                    &&& file == session.breakpoints.files[n].path
                    &&& breakpoints.len() == 0
                },
                StepView::SetFunctionBreakpoints { breakpoints, .. } => {
                    &&& n == session.breakpoints.files.len()
                    &&& breakpoints.len() == 0
                },
                _ => false,
            }
        }),
{
    let files = session.breakpoints.files.map_values(|file: FileView| file.path);
    crate::laws::breakpoints::lemma_clear_next(session, files, replies);
    if replies.len() < files.len() {
        assert(files.skip(replies.len() as int)[0] == files[replies.len() as int]);
    } else {
        assert(files.len() == 0 ==> files =~= Seq::empty());
    }
}

/// Whether `after` is `before` with the status of `report`, whatever that status is.
pub open spec fn takes_status(
    after: StoredBreakpoint,
    before: StoredBreakpoint,
    report: Breakpoint,
) -> bool {
    &&& after.verified == report.verified
    &&& after.actual_line == report.line
    &&& after.message == report.message
    &&& after.id == before.id
    &&& after.location == before.location
    &&& after.condition == before.condition
    &&& after.hit_count == before.hit_count
    &&& after.enabled == before.enabled
}

proof fn lemma_rank_is_enabled_before(bps: Seq<StoredBreakpoint>, i: int)
    requires
        0 <= i <= bps.len(),
    ensures
        crate::breakpoints::rank(bps, i) == enabled_before(bps, i),
    decreases i,
{
    reveal(Seq::filter);
    if i > 0 {
        lemma_rank_is_enabled_before(bps, i - 1);
        assert(bps.take(i).drop_last() =~= bps.take(i - 1));
        assert(bps.take(i).last() == bps[i - 1]);
    } else {
        assert(bps.take(0) =~= Seq::empty());
    }
}

/// An answer on the breakpoints of a file gives each enabled one the status reported at its place
/// in the request. Nothing else changes, in that file or in another.
pub proof fn law_line_answer_updates_what_was_sent(
    session: SessionView,
    after: AfterBreakpointsView,
    reports: Seq<Breakpoint>,
    file: SourcePath,
    i: int,
    j: int,
)
    requires
        session.breakpoints.wf(),
        0 <= i < session.breakpoints.files.len(),
        0 <= j < session.breakpoints.files[i].breakpoints.len(),
        match after {
            AfterBreakpointsView::Added { file: f, .. } => f == Some(file),
            AfterBreakpointsView::Switched { file: f } => f == Some(file),
            _ => false,
        },
    ensures
        ({
            let before = session.breakpoints;
            let next = session.breakpoints_received(after, Ok(reports)).0;
            let bps = before.files[i].breakpoints;
            let place = enabled_before(bps, j);
            &&& next == (SessionView { breakpoints: next.breakpoints, ..session })
            &&& next.breakpoints.next_id == before.next_id
            &&& next.breakpoints.functions == before.functions
            &&& next.breakpoints.files.len() == before.files.len()
            &&& next.breakpoints.files[i].path == before.files[i].path
            &&& next.breakpoints.files[i].breakpoints.len() == bps.len()
            &&& if before.files[i].path.key@ == file.key@ && bps[j].enabled && place
                < reports.len() {
                takes_status(next.breakpoints.files[i].breakpoints[j], bps[j], reports[place])
            } else {
                next.breakpoints.files[i].breakpoints[j] == bps[j]
            }
        }),
{
    let table = session.breakpoints;
    lemma_rank_is_enabled_before(table.files[i].breakpoints, j);
    if table.files[i].path.key@ == file.key@ {
        crate::breakpoints::lemma_place(table, file.key@, i);
    }
}

/// An answer on the function breakpoints gives them the status reported place by place. Nothing
/// else changes.
pub proof fn law_function_answer_updates_by_place(
    session: SessionView,
    after: AfterBreakpointsView,
    reports: Seq<Breakpoint>,
    j: int,
)
    requires
        0 <= j < session.breakpoints.functions.len(),
        match after {
            AfterBreakpointsView::Added { file, .. } => file is None,
            AfterBreakpointsView::Switched { file } => file is None,
            _ => false,
        },
    ensures
        ({
            let before = session.breakpoints;
            let next = session.breakpoints_received(after, Ok(reports)).0;
            &&& next == (SessionView { breakpoints: next.breakpoints, ..session })
            &&& next.breakpoints.next_id == before.next_id
            &&& next.breakpoints.files == before.files
            &&& next.breakpoints.functions.len() == before.functions.len()
            &&& if j < reports.len() {
                takes_status(next.breakpoints.functions[j], before.functions[j], reports[j])
            } else {
                next.breakpoints.functions[j] == before.functions[j]
            }
        }),
{
}

/// Once the adapter has answered, switching and removing are done. What it says of removed
/// breakpoints is not looked at.
pub proof fn law_answers_end_switching_and_removing(
    session: SessionView,
    reports: Seq<Breakpoint>,
    file: Option<SourcePath>,
)
    ensures
        session.breakpoints_received(AfterBreakpointsView::Removed, Ok(reports)) == (
            session,
            StepView::Done(Ok(OutcomeView::Unit)),
        ),
        session.breakpoints_received(AfterBreakpointsView::Switched { file }, Ok(reports)).1
            == StepView::Done(Ok(OutcomeView::Unit)),
{
}

/// Whether the line breakpoint `bp` was asked for on `line`, or the adapter had moved it there.
pub open spec fn is_on(bp: StoredBreakpoint, line: u32) -> bool {
    match bp.location {
        BreakpointLocation::Line { line: asked, .. } => asked == line || bp.actual_line == Some(
            line,
        ),
        BreakpointLocation::Function { .. } => false,
    }
}

proof fn lemma_first_at(bps: Seq<StoredBreakpoint>, line: u32, n: int)
    requires
        0 <= n <= bps.len(),
        forall|k: int| 0 <= k < n ==> !is_on(#[trigger] bps[k], line),
        n < bps.len() ==> is_on(bps[n], line),
    ensures
        crate::breakpoints::first_at(bps, line) == n,
    decreases n,
{
    if n > 0 {
        assert(!is_on(bps[0], line));
        let rest = bps.drop_first();
        assert forall|k: int| 0 <= k < n - 1 implies !is_on(#[trigger] rest[k], line) by {
            assert(rest[k] == bps[k + 1]);
        }
        lemma_first_at(rest, line, n - 1);
    }
}

/// A report on a line of a file gives its status, whatever it is, to the first breakpoint of that
/// file that was asked for on that line or that the adapter had moved there. All other breakpoints
/// stay as they are.
pub proof fn law_report_reaches_its_breakpoint(
    session: SessionView,
    event: Event,
    now: std::time::Instant,
    i: int,
    j: int,
)
    requires
        session.breakpoints.wf(),
        event is Breakpoint,
        event->breakpoint.id is Some,
        event->breakpoint.line is Some,
        event->breakpoint.source is Some,
        event->breakpoint.source->0.path is Some,
        0 <= i < session.breakpoints.files.len(),
        session.breakpoints.files[i].path.key@ == crate::paths::path_key(
            event->breakpoint.source->0.path->0@,
        ),
        0 <= j < session.breakpoints.files[i].breakpoints.len(),
        is_on(session.breakpoints.files[i].breakpoints[j], event->breakpoint.line->0),
        forall|k: int|
            0 <= k < j ==> !is_on(
                #[trigger] session.breakpoints.files[i].breakpoints[k],
                event->breakpoint.line->0,
            ),
    ensures
        ({
            let before = session.breakpoints;
            let next = session.after_event(event, now);
            let after = next.breakpoints;
            &&& next == (SessionView { breakpoints: after, ..session })
            &&& after.next_id == before.next_id
            &&& after.functions == before.functions
            &&& after.files.len() == before.files.len()
            &&& forall|k: int|
                0 <= k < before.files.len() && k != i ==> #[trigger] after.files[k]
                    == before.files[k]
            &&& after.files[i].path == before.files[i].path
            &&& after.files[i].breakpoints.len() == before.files[i].breakpoints.len()
            &&& forall|l: int|
                0 <= l < before.files[i].breakpoints.len() && l != j
                    ==> #[trigger] after.files[i].breakpoints[l] == before.files[i].breakpoints[l]
            &&& takes_status(
                after.files[i].breakpoints[j],
                before.files[i].breakpoints[j],
                event->breakpoint,
            )
        }),
{
    let table = session.breakpoints;
    let key = crate::paths::path_key(event->breakpoint.source->0.path->0@);
    crate::breakpoints::lemma_place(table, key, i);
    lemma_first_at(table.files[i].breakpoints, event->breakpoint.line->0, j);
}

/// A report changes nothing where it lacks a number, a file or a line, or where no breakpoint of
/// that file is on that line.
pub proof fn law_report_on_nothing_changes_nothing(
    session: SessionView,
    event: Event,
    now: std::time::Instant,
)
    requires
        session.breakpoints.wf(),
        event is Breakpoint,
        ({
            let report = event->breakpoint;
            ||| report.id is None
            ||| report.line is None
            ||| report.source is None
            ||| report.source->0.path is None
            ||| forall|i: int, j: int|
                #![trigger session.breakpoints.files[i].breakpoints[j]]
                0 <= i < session.breakpoints.files.len() && 0 <= j
                    < session.breakpoints.files[i].breakpoints.len()
                    && session.breakpoints.files[i].path.key@ == crate::paths::path_key(
                    report.source->0.path->0@,
                ) ==> !is_on(session.breakpoints.files[i].breakpoints[j], report.line->0)
        }),
    ensures
        session.after_event(event, now) == session,
{
    let table = session.breakpoints;
    let report = event->breakpoint;
    if report.id is Some && report.line is Some && report.source is Some
        && report.source->0.path is Some {
        let key = crate::paths::path_key(report.source->0.path->0@);
        if table.has_file(key) {
            let p = table.place_of(key);
            assert(0 <= p < table.files.len() && table.files[p].path.key@ == key);
            let bps = table.files[p].breakpoints;
            assert forall|k: int| 0 <= k < bps.len() implies !is_on(
                #[trigger] bps[k],
                report.line->0,
            ) by {
                assert(table.files[p].breakpoints[k] == bps[k]);
            }
            lemma_first_at(bps, report.line->0, bps.len() as int);
            assert(table.files.update(p, FileView { breakpoints: bps, ..table.files[p] })
                =~= table.files);
        }
    }
}

/// How many breakpoints the first `i` files have.
pub open spec fn breakpoints_before(files: Seq<FileView>, i: int) -> int
    decreases i,
{
    if i <= 0 {
        0
    } else {
        breakpoints_before(files, i - 1) + files[i - 1].breakpoints.len()
    }
}

proof fn lemma_files_infos(files: Seq<FileView>, n: int)
    requires
        0 <= n <= files.len(),
    ensures
        crate::breakpoints::files_infos(files.take(n)).len() == breakpoints_before(files, n),
        forall|i: int, j: int|
            #![trigger files[i].breakpoints[j]]
            0 <= i < n && 0 <= j < files[i].breakpoints.len() ==> 0 <= breakpoints_before(files, i)
                + j < breakpoints_before(files, n) && crate::breakpoints::files_infos(
                files.take(n),
            )[breakpoints_before(files, i) + j] == crate::breakpoints::line_info(
                files[i].path,
                files[i].breakpoints[j],
            ),
        0 <= breakpoints_before(files, n),
    decreases n,
{
    if n > 0 {
        lemma_files_infos(files, n - 1);
        let front = files.take(n);
        assert(front.drop_last() =~= files.take(n - 1));
        assert(front.last() == files[n - 1]);
        assert forall|i: int, j: int|
            #![trigger files[i].breakpoints[j]]
            0 <= i < n && 0 <= j < files[i].breakpoints.len() implies 0 <= breakpoints_before(
            files,
            i,
        ) + j < breakpoints_before(files, n) && crate::breakpoints::files_infos(
            front,
        )[breakpoints_before(files, i) + j] == crate::breakpoints::line_info(
            files[i].path,
            files[i].breakpoints[j],
        ) by {
            if i == n - 1 {
                assert(crate::breakpoints::file_infos(files[i])[j]
                    == crate::breakpoints::line_info(files[i].path, files[i].breakpoints[j]));
            }
        }
    }
}

/// Whether `info` shows `bp` as it is, under the name `source`.
pub open spec fn shows_as_is(info: BreakpointInfo, bp: StoredBreakpoint, source: String) -> bool {
    &&& info.id == bp.id
    &&& info.verified == bp.verified
    &&& info.enabled == bp.enabled
    &&& info.message == bp.message
    &&& info.condition == bp.condition
    &&& info.hit_count == bp.hit_count
    &&& info.source == Some(source)
}

/// The list shows every breakpoint once and as it is: those on lines file by file, each under its
/// file's path and on the line that the adapter gave it, or else the one that was asked for; then
/// those on functions, each under the function's name. A number is looked up in that list.
pub proof fn law_list_shows_every_breakpoint(table: TableView, i: int, j: int, f: int)
    requires
        table.wf(),
    ensures
        table.infos().len() == breakpoints_before(table.files, table.files.len() as int)
            + table.functions.len(),
        0 <= i < table.files.len() && 0 <= j < table.files[i].breakpoints.len() ==> {
            let bp = table.files[i].breakpoints[j];
            let info = table.infos()[breakpoints_before(table.files, i) + j];
            &&& shows_as_is(info, bp, table.files[i].path.text)
            &&& info.line == if bp.actual_line is Some {
                bp.actual_line
            } else {
                Some(bp.location->line)
            }
            &&& table.lookup(bp.id) == Ok::<BreakpointInfo, ErrorView>(info)
        },
        0 <= f < table.functions.len() ==> {
            let bp = table.functions[f];
            let lines = breakpoints_before(table.files, table.files.len() as int);
            let info = table.infos()[lines + f];
            &&& shows_as_is(info, bp, bp.location->name)
            &&& info.line == bp.actual_line
            &&& table.lookup(bp.id) == Ok::<BreakpointInfo, ErrorView>(info)
        },
{
    let files = table.files;
    let n = files.len() as int;
    lemma_files_infos(files, n);
    assert(files.take(n) =~= files);
    if 0 <= i < files.len() && 0 <= j < files[i].breakpoints.len() {
        let bp = files[i].breakpoints[j];
        assert(bp.location is Line);
        crate::breakpoints::lemma_shows_line(table, i, j);
        crate::breakpoints::lemma_lookup(
            table,
            crate::breakpoints::line_info(files[i].path, bp),
            bp.id,
        );
    }
    if 0 <= f < table.functions.len() {
        let bp = table.functions[f];
        assert(bp.location is Function);
        crate::breakpoints::lemma_shows_function(table, f);
        crate::breakpoints::lemma_lookup(table, crate::breakpoints::function_info(bp), bp.id);
    }
}

} // verus!
