//! What holds of breakpoints.

use crate::breakpoints::{
    BreakpointInfo, BreakpointLocation, FileView, StoredBreakpoint, TableView,
};
use crate::error::ErrorView;
use crate::paths::SourcePath;
use crate::protocol::Breakpoint;
use crate::state::SessionView;
use crate::step::{OutcomeView, StepView};
use vstd::prelude::*;

verus! {

spec fn stores_line(table: TableView, path: SourcePath, bp: StoredBreakpoint) -> bool {
    exists|i: int|
        0 <= i < table.files.len() && table.files[i].path == path
            && #[trigger] table.files[i].breakpoints.contains(bp)
}

spec fn stores_function(table: TableView, bp: StoredBreakpoint) -> bool {
    table.functions.contains(bp)
}

/// What is shown of a number is what is stored under it.
proof fn lemma_shows_iff(table: TableView, info: BreakpointInfo, id: u32)
    ensures
        table.shows(info, id) <==> {
            ||| exists|path: SourcePath, bp: StoredBreakpoint| #[trigger]
                stores_line(table, path, bp) && bp.id == id && info
                    == crate::breakpoints::line_info(path, bp)
            ||| exists|bp: StoredBreakpoint| #[trigger]
                stores_function(table, bp) && bp.id == id && info
                    == crate::breakpoints::function_info(bp)
        },
{
    if table.shows(info, id) {
        crate::breakpoints::lemma_shown(table, info, id);
        if exists|i: int, j: int|
            #![trigger table.files[i].breakpoints[j]]
            0 <= i < table.files.len() && 0 <= j < table.files[i].breakpoints.len()
                && table.files[i].breakpoints[j].id == id && info == crate::breakpoints::line_info(
                table.files[i].path,
                table.files[i].breakpoints[j],
            ) {
            let (i, j) = choose|i: int, j: int|
                #![trigger table.files[i].breakpoints[j]]
                0 <= i < table.files.len() && 0 <= j < table.files[i].breakpoints.len()
                    && table.files[i].breakpoints[j].id == id && info
                    == crate::breakpoints::line_info(
                    table.files[i].path,
                    table.files[i].breakpoints[j],
                );
            assert(table.files[i].breakpoints.contains(table.files[i].breakpoints[j]));
            assert(stores_line(table, table.files[i].path, table.files[i].breakpoints[j]));
        } else {
            let j = choose|j: int|
                0 <= j < table.functions.len() && (#[trigger] table.functions[j]).id == id && info
                    == crate::breakpoints::function_info(table.functions[j]);
            assert(stores_function(table, table.functions[j]));
        }
    }
    if exists|path: SourcePath, bp: StoredBreakpoint| #[trigger]
        stores_line(table, path, bp) && bp.id == id && info == crate::breakpoints::line_info(
            path,
            bp,
        ) {
        let (path, bp) = choose|path: SourcePath, bp: StoredBreakpoint| #[trigger]
            stores_line(table, path, bp) && bp.id == id && info == crate::breakpoints::line_info(
                path,
                bp,
            );
        let i = choose|i: int|
            0 <= i < table.files.len() && table.files[i].path == path
                && #[trigger] table.files[i].breakpoints.contains(bp);
        let j = choose|j: int|
            0 <= j < table.files[i].breakpoints.len() && table.files[i].breakpoints[j] == bp;
        crate::breakpoints::lemma_shows_line(table, i, j);
    }
    if exists|bp: StoredBreakpoint| #[trigger]
        stores_function(table, bp) && bp.id == id && info == crate::breakpoints::function_info(
            bp,
        ) {
        let bp = choose|bp: StoredBreakpoint| #[trigger]
            stores_function(table, bp) && bp.id == id && info == crate::breakpoints::function_info(
                bp,
            );
        let j = choose|j: int| 0 <= j < table.functions.len() && table.functions[j] == bp;
        crate::breakpoints::lemma_shows_function(table, j);
    }
}

/// A number that is in use is shown, and one that is not is not.
proof fn lemma_has_shows(table: TableView, id: u32)
    ensures
        table.has(id) <==> exists|info: BreakpointInfo| table.shows(info, id),
{
    if table.has_line(id) {
        let i = choose|i: int| 0 <= i < table.files.len() && #[trigger] table.file_has(i, id);
        let j = choose|j: int|
            0 <= j < table.files[i].breakpoints.len() && #[trigger] table.files[i].breakpoints[j].id
                == id;
        crate::breakpoints::lemma_shows_line(table, i, j);
    } else if table.has_function(id) {
        let j = choose|j: int|
            0 <= j < table.functions.len() && #[trigger] table.functions[j].id == id;
        crate::breakpoints::lemma_shows_function(table, j);
    }
    if exists|info: BreakpointInfo| table.shows(info, id) {
        let info = choose|info: BreakpointInfo| table.shows(info, id);
        crate::breakpoints::lemma_shown(table, info, id);
    }
}

/// Tables that store the same under a number agree on it.
proof fn lemma_agree(a: TableView, b: TableView, id: u32)
    requires
        a.unique(),
        b.unique(),
        forall|path: SourcePath, bp: StoredBreakpoint|
            #![trigger stores_line(a, path, bp)]
            #![trigger stores_line(b, path, bp)]
            bp.id == id ==> stores_line(a, path, bp) == stores_line(b, path, bp),
        forall|bp: StoredBreakpoint|
            #![trigger stores_function(a, bp)]
            #![trigger stores_function(b, bp)]
            bp.id == id ==> stores_function(a, bp) == stores_function(b, bp),
    ensures
        a.lookup(id) == b.lookup(id),
        a.has(id) == b.has(id),
{
    assert forall|info: BreakpointInfo| a.shows(info, id) == b.shows(info, id) by {
        lemma_shows_iff(a, info, id);
        lemma_shows_iff(b, info, id);
    }
    lemma_has_shows(a, id);
    lemma_has_shows(b, id);
    if a.has(id) {
        let info = choose|info: BreakpointInfo| a.shows(info, id);
        crate::breakpoints::lemma_lookup(a, info, id);
        crate::breakpoints::lemma_lookup(b, info, id);
    }
}

/// A new breakpoint takes a number that no breakpoint has, is found under it, and is shown as it
/// was asked for: enabled, and not yet verified.
pub proof fn law_added_breakpoint_is_found(
    table: TableView,
    location: BreakpointLocation,
    condition: Option<String>,
    hit_count: Option<u32>,
)
    requires
        table.wf(),
        table.next_id < u32::MAX,
    ensures
        !table.has(table.next_id),
        match table.with_breakpoint(location, condition, hit_count).lookup(table.next_id) {
            Ok(info) => {
                &&& info.id == table.next_id
                &&& info.enabled
                &&& !info.verified
                &&& info.line == crate::breakpoints::wanted_line(location)
                &&& info.condition == condition
                &&& info.hit_count == hit_count
                &&& info.message is None
            },
            Err(_) => false,
        },
{
    let id = table.next_id;
    let after = table.with_breakpoint(location, condition, hit_count);
    crate::breakpoints::lemma_with_breakpoint_wf(table, location, condition, hit_count);
    let bp = crate::breakpoints::fresh(id, location, condition, hit_count);
    match location {
        BreakpointLocation::Line { file, .. } => {
            let p = if table.has_file(file.key@) {
                table.place_of(file.key@)
            } else {
                table.files.len() as int
            };
            assert(0 <= p < after.files.len());
            let n = after.files[p].breakpoints.len() - 1;
            assert(after.files[p].breakpoints[n] == bp);
            crate::breakpoints::lemma_shows_line(after, p, n);
            crate::breakpoints::lemma_lookup(
                after,
                crate::breakpoints::line_info(after.files[p].path, bp),
                id,
            );
        },
        BreakpointLocation::Function { .. } => {
            let n = after.functions.len() - 1;
            assert(after.functions[n] == bp);
            crate::breakpoints::lemma_shows_function(after, n);
            crate::breakpoints::lemma_lookup(after, crate::breakpoints::function_info(bp), id);
        },
    }
}

proof fn lemma_push_contains(bps: Seq<StoredBreakpoint>, bp: StoredBreakpoint, x: StoredBreakpoint)
    ensures
        bps.push(bp).contains(x) <==> bps.contains(x) || x == bp,
{
    if bps.contains(x) {
        let j = choose|j: int| 0 <= j < bps.len() && bps[j] == x;
        assert(bps.push(bp)[j] == x);
    }
    if x == bp {
        assert(bps.push(bp)[bps.len() as int] == x);
    }
    if bps.push(bp).contains(x) && x != bp {
        let j = choose|j: int| 0 <= j < bps.push(bp).len() && bps.push(bp)[j] == x;
        assert(bps[j] == x);
    }
}

/// A new breakpoint changes nothing about the others.
pub proof fn law_adding_keeps_others(
    table: TableView,
    location: BreakpointLocation,
    condition: Option<String>,
    hit_count: Option<u32>,
    other: u32,
)
    requires
        table.wf(),
        table.next_id < u32::MAX,
        other != table.next_id,
    ensures
        table.with_breakpoint(location, condition, hit_count).lookup(other) == table.lookup(other),
{
    let after = table.with_breakpoint(location, condition, hit_count);
    let new = crate::breakpoints::fresh(table.next_id, location, condition, hit_count);
    crate::breakpoints::lemma_with_breakpoint_wf(table, location, condition, hit_count);
    assert forall|path: SourcePath, bp: StoredBreakpoint| bp.id == other implies stores_line(
        table,
        path,
        bp,
    ) == stores_line(after, path, bp) by {
        if stores_line(table, path, bp) {
            let i = choose|i: int|
                0 <= i < table.files.len() && table.files[i].path == path
                    && #[trigger] table.files[i].breakpoints.contains(bp);
            lemma_push_contains(table.files[i].breakpoints, new, bp);
            assert(after.files[i].path == path && after.files[i].breakpoints.contains(bp));
        }
        if stores_line(after, path, bp) {
            let i = choose|i: int|
                0 <= i < after.files.len() && after.files[i].path == path
                    && #[trigger] after.files[i].breakpoints.contains(bp);
            if i < table.files.len() {
                lemma_push_contains(table.files[i].breakpoints, new, bp);
                assert(table.files[i].breakpoints.contains(bp));
            } else {
                lemma_push_contains(Seq::empty(), new, bp);
                assert(after.files[i].breakpoints =~= Seq::empty().push(new));
            }
        }
    }
    assert forall|bp: StoredBreakpoint| bp.id == other implies stores_function(table, bp)
        == stores_function(after, bp) by {
        lemma_push_contains(table.functions, new, bp);
    }
    lemma_agree(table, after, other);
}

proof fn lemma_without_contains(bps: Seq<StoredBreakpoint>, id: u32, x: StoredBreakpoint)
    ensures
        crate::breakpoints::without(bps, id).contains(x) <==> bps.contains(x) && x.id != id,
{
    let keep = |bp: StoredBreakpoint| bp.id != id;
    if bps.contains(x) && x.id != id {
        let j = choose|j: int| 0 <= j < bps.len() && bps[j] == x;
        bps.lemma_filter_contains(keep, j);
    }
    if bps.filter(keep).contains(x) {
        bps.lemma_filter_contains_rev(keep, x);
        let j = choose|j: int| 0 <= j < bps.filter(keep).len() && bps.filter(keep)[j] == x;
        bps.lemma_filter_pred(keep, j);
    }
}

/// A removed breakpoint is not found any more, and nothing changes about the others.
pub proof fn law_removed_breakpoint_is_gone(table: TableView, id: u32, other: u32)
    requires
        table.wf(),
        other != id,
    ensures
        table.without(id).lookup(id) == Err::<BreakpointInfo, ErrorView>(
            ErrorView::BreakpointNotFound { id },
        ),
        table.without(id).lookup(other) == table.lookup(other),
{
    let after = table.without(id);
    crate::breakpoints::lemma_without_wf(table, id);
    assert forall|path: SourcePath, bp: StoredBreakpoint| bp.id == other implies stores_line(
        table,
        path,
        bp,
    ) == stores_line(after, path, bp) by {
        if stores_line(table, path, bp) {
            let i = choose|i: int|
                0 <= i < table.files.len() && table.files[i].path == path
                    && #[trigger] table.files[i].breakpoints.contains(bp);
            lemma_without_contains(table.files[i].breakpoints, id, bp);
            assert(after.files[i].path == path && after.files[i].breakpoints.contains(bp));
        }
        if stores_line(after, path, bp) {
            let i = choose|i: int|
                0 <= i < after.files.len() && after.files[i].path == path
                    && #[trigger] after.files[i].breakpoints.contains(bp);
            lemma_without_contains(table.files[i].breakpoints, id, bp);
            assert(table.files[i].breakpoints.contains(bp));
        }
    }
    assert forall|bp: StoredBreakpoint| bp.id == other implies stores_function(table, bp)
        == stores_function(after, bp) by {
        lemma_without_contains(table.functions, id, bp);
    }
    lemma_agree(table, after, other);
}

/// Removing the breakpoint that was just added leaves the list as it was.
pub proof fn law_removing_undoes_adding(
    table: TableView,
    location: BreakpointLocation,
    condition: Option<String>,
    hit_count: Option<u32>,
)
    requires
        table.wf(),
        table.next_id < u32::MAX,
    ensures
        table.with_breakpoint(location, condition, hit_count).without(table.next_id).infos()
            == table.infos(),
{
    let id = table.next_id;
    let added = table.with_breakpoint(location, condition, hit_count);
    let back = added.without(id);
    let new = crate::breakpoints::fresh(id, location, condition, hit_count);
    crate::breakpoints::lemma_with_breakpoint_wf(table, location, condition, hit_count);
    assert forall|k: int| 0 <= k < table.files.len() implies #[trigger] back.files[k]
        == table.files[k] by {
        let bps = table.files[k].breakpoints;
        crate::breakpoints::lemma_without_absent(bps, id);
        if added.files[k].breakpoints != bps {
            assert(added.files[k].breakpoints == bps.push(new));
            let n = bps.len() as int;
            assert(bps.push(new).remove(n) =~= bps);
            crate::breakpoints::lemma_remove_is_without(bps.push(new), n);
        }
    }
    crate::breakpoints::lemma_without_absent(table.functions, id);
    match location {
        BreakpointLocation::Line { file, .. } => {
            if table.has_file(file.key@) {
                assert(back.files =~= table.files);
            } else {
                let n = table.files.len() as int;
                assert(back.files.len() == n + 1);
                assert(back.files.drop_last() =~= table.files);
                let empty = Seq::<StoredBreakpoint>::empty();
                assert(added.files[n].breakpoints =~= empty.push(new));
                assert(empty.push(new).remove(0) =~= empty);
                crate::breakpoints::lemma_remove_is_without(empty.push(new), 0);
                assert(back.files.last().breakpoints =~= empty);
                assert(crate::breakpoints::file_infos(back.files.last()) =~= Seq::empty());
                assert(crate::breakpoints::files_infos(back.files)
                    =~= crate::breakpoints::files_infos(table.files));
            }
            assert(back.functions == table.functions);
        },
        BreakpointLocation::Function { .. } => {
            assert(back.files =~= table.files);
            let n = table.functions.len() as int;
            assert(table.functions.push(new).remove(n) =~= table.functions);
            crate::breakpoints::lemma_remove_is_without(table.functions.push(new), n);
        },
    }
}

/// A number is given out once: a breakpoint's number is below the next one, and stays so when the
/// breakpoint is removed.
pub proof fn law_numbers_are_not_reused(table: TableView, id: u32)
    requires
        table.wf(),
        table.has(id),
    ensures
        id < table.next_id,
        table.without(id).next_id == table.next_id,
{
}

proof fn lemma_switched_back(bps: Seq<StoredBreakpoint>, id: u32, enabled: bool)
    requires
        forall|j: int|
            0 <= j < bps.len() && (#[trigger] bps[j]).id == id ==> bps[j].enabled == enabled,
    ensures
        crate::breakpoints::switched(
            crate::breakpoints::switched(bps, id, !enabled),
            id,
            enabled,
        ) == bps,
{
    assert(crate::breakpoints::switched(
        crate::breakpoints::switched(bps, id, !enabled),
        id,
        enabled,
    ) =~= bps);
}

/// Switching a breakpoint over and back leaves all breakpoints as they were.
pub proof fn law_switching_back(table: TableView, id: u32, enabled: bool)
    requires
        table.wf(),
        match table.lookup(id) {
            Ok(info) => info.enabled == enabled,
            Err(_) => true,
        },
    ensures
        table.with_switched(id, !enabled).with_switched(id, enabled) == table,
{
    let back = table.with_switched(id, !enabled).with_switched(id, enabled);
    assert forall|i: int| 0 <= i < table.files.len() implies #[trigger] back.files[i]
        == table.files[i] by {
        let bps = table.files[i].breakpoints;
        assert forall|j: int|
            0 <= j < bps.len() && (
            #[trigger] bps[j]).id == id implies bps[j].enabled == enabled by {
            crate::breakpoints::lemma_shows_line(table, i, j);
            crate::breakpoints::lemma_lookup(
                table,
                crate::breakpoints::line_info(table.files[i].path, bps[j]),
                id,
            );
        }
        lemma_switched_back(bps, id, enabled);
    }
    assert forall|j: int|
        0 <= j < table.functions.len() && (
        #[trigger] table.functions[j]).id == id implies table.functions[j].enabled == enabled by {
        crate::breakpoints::lemma_shows_function(table, j);
        crate::breakpoints::lemma_lookup(
            table,
            crate::breakpoints::function_info(table.functions[j]),
            id,
        );
    }
    lemma_switched_back(table.functions, id, enabled);
    assert(back.files =~= table.files);
}

/// Switching a breakpoint changes nothing about the others, and of that one only whether it is
/// enabled.
pub proof fn law_switching_keeps_the_rest(table: TableView, id: u32, enabled: bool, other: u32)
    requires
        table.wf(),
    ensures
        match (table.with_switched(id, enabled).lookup(other), table.lookup(other)) {
            (Ok(after), Ok(before)) => after == if other == id {
                BreakpointInfo { enabled, ..before }
            } else {
                before
            },
            (Err(after), Err(before)) => after == before,
            _ => false,
        },
{
    let after = table.with_switched(id, enabled);
    crate::breakpoints::lemma_with_switched_wf(table, id, enabled);
    if table.has_line(other) {
        let i = choose|i: int| 0 <= i < table.files.len() && #[trigger] table.file_has(i, other);
        let j = choose|j: int|
            0 <= j < table.files[i].breakpoints.len() && #[trigger] table.files[i].breakpoints[j].id
                == other;
        crate::breakpoints::lemma_shows_line(table, i, j);
        crate::breakpoints::lemma_shows_line(after, i, j);
        let path = table.files[i].path;
        crate::breakpoints::lemma_lookup(
            table,
            crate::breakpoints::line_info(path, table.files[i].breakpoints[j]),
            other,
        );
        crate::breakpoints::lemma_lookup(
            after,
            crate::breakpoints::line_info(path, after.files[i].breakpoints[j]),
            other,
        );
    } else if table.has_function(other) {
        let j = choose|j: int|
            0 <= j < table.functions.len() && #[trigger] table.functions[j].id == other;
        crate::breakpoints::lemma_shows_function(table, j);
        crate::breakpoints::lemma_shows_function(after, j);
        crate::breakpoints::lemma_lookup(
            table,
            crate::breakpoints::function_info(table.functions[j]),
            other,
        );
        crate::breakpoints::lemma_lookup(
            after,
            crate::breakpoints::function_info(after.functions[j]),
            other,
        );
    } else {
        if after.has_line(other) {
            let i = choose|i: int|
                0 <= i < after.files.len() && #[trigger] after.file_has(i, other);
            let j = choose|j: int|
                0 <= j < after.files[i].breakpoints.len()
                    && #[trigger] after.files[i].breakpoints[j].id == other;
            assert(table.files[i].breakpoints[j].id == other);
            assert(table.file_has(i, other));
        }
        if after.has_function(other) {
            let j = choose|j: int|
                0 <= j < after.functions.len() && #[trigger] after.functions[j].id == other;
            assert(table.functions[j].id == other);
        }
    }
}

proof fn lemma_switched_off_filter(bps: Seq<StoredBreakpoint>, id: u32)
    ensures
        crate::breakpoints::switched(bps, id, false).filter(|bp: StoredBreakpoint| bp.enabled)
            == crate::breakpoints::without(bps, id).filter(|bp: StoredBreakpoint| bp.enabled),
    decreases bps.len(),
{
    reveal(Seq::filter);
    let on = |bp: StoredBreakpoint| bp.enabled;
    let off = crate::breakpoints::switched(bps, id, false);
    if bps.len() > 0 {
        let front = bps.drop_last();
        lemma_switched_off_filter(front, id);
        assert(off.drop_last() =~= crate::breakpoints::switched(front, id, false));
        let kept = crate::breakpoints::without(bps, id);
        if bps.last().id != id {
            assert(kept == crate::breakpoints::without(front, id).push(bps.last()));
            assert(kept.drop_last() =~= crate::breakpoints::without(front, id));
        } else {
            assert(kept == crate::breakpoints::without(front, id));
        }
    } else {
        assert(off =~= Seq::empty());
    }
}

/// A disabled breakpoint is kept from the adapter: the adapter is asked to set exactly what it
/// would be asked to set if the breakpoint were removed.
pub proof fn law_disabled_breakpoint_is_not_sent(session: SessionView, id: u32)
    requires
        session.breakpoints.wf(),
        session.breakpoints.has(id),
    ensures
        match (session.set_breakpoint_enabled(id, false).1, session.remove_breakpoint(id).1) {
            (
                StepView::SetBreakpoints { file: f, breakpoints: b, .. },
                StepView::SetBreakpoints { file: g, breakpoints: c, .. },
            ) => session.breakpoints.file_of(id) == Some(f) && f == g && b == c,
            (
                StepView::SetFunctionBreakpoints { breakpoints: b, .. },
                StepView::SetFunctionBreakpoints { breakpoints: c, .. },
            ) => session.breakpoints.file_of(id) is None && b == c,
            _ => false,
        },
{
    let table = session.breakpoints;
    let off = table.with_switched(id, false);
    let gone = table.without(id);
    crate::breakpoints::lemma_with_switched_wf(table, id, false);
    crate::breakpoints::lemma_without_wf(table, id);
    if table.has_line(id) {
        let i = choose|i: int| 0 <= i < table.files.len() && table.file_has(i, id);
        let file = table.files[i].path;
        crate::breakpoints::lemma_place(off, file.key@, i);
        crate::breakpoints::lemma_place(gone, file.key@, i);
        lemma_switched_off_filter(table.files[i].breakpoints, id);
    } else {
        lemma_switched_off_filter(table.functions, id);
    }
}

/// The session and its request after the adapter has answered so many requests for breakpoints.
pub open spec fn answered(
    session: SessionView,
    step: StepView,
    replies: Seq<Seq<Breakpoint>>,
) -> (SessionView, StepView)
    decreases replies.len(),
{
    if replies.len() == 0 {
        (session, step)
    } else {
        let after = match step {
            StepView::SetBreakpoints { after, .. } => Some(after),
            StepView::SetFunctionBreakpoints { after, .. } => Some(after),
            _ => None,
        };
        match after {
            Some(after) => {
                let (session, step) = session.breakpoints_received(after, Ok(replies[0]));
                answered(session, step, replies.drop_first())
            },
            None => (session, step),
        }
    }
}

pub proof fn lemma_clear_next(
    session: SessionView,
    files: Seq<SourcePath>,
    replies: Seq<Seq<Breakpoint>>,
)
    requires
        replies.len() <= files.len(),
    ensures
        answered(session, session.clear_next(files).1, replies) == (
            session,
            session.clear_next(files.skip(replies.len() as int)).1,
        ) || replies.len() == files.len(),
        replies.len() == files.len() ==> {
            let (next, step) = session.clear_next(Seq::empty());
            files.len() > 0 ==> answered(session, session.clear_next(files).1, replies) == (
                next,
                step,
            )
        },
    decreases files.len(),
{
    if replies.len() == 0 {
        assert(files.skip(0) =~= files);
    } else {
        lemma_clear_next(session, files.drop_first(), replies.drop_first());
        assert(files.drop_first().skip(replies.len() - 1) =~= files.skip(replies.len() as int));
        if files.len() == 1 {
            assert(files.drop_first() =~= Seq::empty());
            assert(replies.drop_first() =~= Seq::empty());
            reveal_with_fuel(answered, 2);
        } else {
            assert(files.drop_first().len() > 0);
        }
    }
}

/// When the adapter has answered once for each file and once for the functions, no breakpoint is
/// left, and nothing else has changed.
pub proof fn law_all_breakpoints_are_removed(
    session: SessionView,
    replies: Seq<Seq<Breakpoint>>,
)
    requires
        replies.len() == session.breakpoints.files.len() + 1,
    ensures
        answered(
            session.remove_all_breakpoints().0,
            session.remove_all_breakpoints().1,
            replies,
        ) == (
            SessionView {
                breakpoints: TableView {
                    next_id: session.breakpoints.next_id,
                    ..TableView::empty()
                },
                ..session
            },
            StepView::Done(Ok(OutcomeView::Unit)),
        ),
{
    let files = session.breakpoints.files.map_values(|file: FileView| file.path);
    let (next, step) = session.remove_all_breakpoints();
    let front = replies.drop_last();
    let last = seq![replies.last()];
    lemma_clear_next(session, files, front);
    lemma_answered_splits(next, step, front, last);
    assert(front + last =~= replies);
    assert(front.len() == 0 ==> front =~= Seq::empty());
    assert(files.len() == 0 ==> files =~= Seq::empty());
    reveal_with_fuel(answered, 2);
}

proof fn lemma_answered_splits(
    session: SessionView,
    step: StepView,
    front: Seq<Seq<Breakpoint>>,
    back: Seq<Seq<Breakpoint>>,
)
    ensures
        answered(session, step, front + back) == answered(
            answered(session, step, front).0,
            answered(session, step, front).1,
            back,
        ),
    decreases front.len(),
{
    if front.len() == 0 {
        assert(front + back =~= back);
    } else {
        assert((front + back).drop_first() =~= front.drop_first() + back);
        let after = match step {
            StepView::SetBreakpoints { after, .. } => Some(after),
            StepView::SetFunctionBreakpoints { after, .. } => Some(after),
            _ => None,
        };
        if let Some(after) = after {
            let (session, step) = session.breakpoints_received(after, Ok(front[0]));
            lemma_answered_splits(session, step, front.drop_first(), back);
        }
    }
}

/// While files are left, removing all breakpoints forgets none of them: a refusal by the adapter
/// finds them all in place.
pub proof fn law_refused_removal_keeps_breakpoints(
    session: SessionView,
    replies: Seq<Seq<Breakpoint>>,
)
    requires
        replies.len() < session.breakpoints.files.len(),
    ensures
        answered(
            session.remove_all_breakpoints().0,
            session.remove_all_breakpoints().1,
            replies,
        ).0 == session,
{
    let files = session.breakpoints.files.map_values(|file: FileView| file.path);
    lemma_clear_next(session, files, replies);
}

/// An answer on the breakpoints of a file goes to those that were asked for: the first report to
/// the first enabled breakpoint, the second to the second, and so on. Disabled breakpoints stay as
/// they are.
pub proof fn law_answer_goes_to_what_was_asked(
    bps: Seq<StoredBreakpoint>,
    reports: Seq<Breakpoint>,
)
    ensures
        ({
            let on = |bp: StoredBreakpoint| bp.enabled;
            let asked = bps.filter(on);
            crate::breakpoints::confirmed_asked(bps, reports).filter(on) == Seq::new(
                asked.len(),
                |k: int|
                    if k < reports.len() {
                        crate::breakpoints::confirmed(asked[k], reports[k])
                    } else {
                        asked[k]
                    },
            )
        }),
        forall|i: int|
            0 <= i < bps.len() && !bps[i].enabled
                ==> #[trigger] crate::breakpoints::confirmed_asked(bps, reports)[i] == bps[i],
    decreases bps.len(),
{
    reveal(Seq::filter);
    let on = |bp: StoredBreakpoint| bp.enabled;
    let after = crate::breakpoints::confirmed_asked(bps, reports);
    let asked = bps.filter(on);
    let wanted = Seq::new(
        asked.len(),
        |k: int|
            if k < reports.len() {
                crate::breakpoints::confirmed(asked[k], reports[k])
            } else {
                asked[k]
            },
    );
    if bps.len() > 0 {
        let front = bps.drop_last();
        let n = front.len() as int;
        law_answer_goes_to_what_was_asked(front, reports);
        assert forall|i: int| 0 <= i < n implies #[trigger] after[i]
            == crate::breakpoints::confirmed_asked(front, reports)[i] by {
            assert(bps.take(i) =~= front.take(i));
        }
        assert(after.drop_last() =~= crate::breakpoints::confirmed_asked(front, reports));
        assert(bps.take(n) =~= front);
        assert(after.last() == after[n]);
        assert(after.filter(on) =~= wanted);
    } else {
        assert(after.filter(on) =~= wanted);
    }
}

/// The adapter's answer to a new breakpoint always leads to that breakpoint's entry, with the
/// status reported at its place: behind the enabled breakpoints of its file, or behind all other
/// breakpoints on functions. A line is shown under the path under which its file first came up.
pub proof fn law_answer_shows_the_new_breakpoint(
    session: SessionView,
    location: BreakpointLocation,
    condition: Option<String>,
    hit_count: Option<u32>,
    reports: Seq<Breakpoint>,
)
    requires
        session.breakpoints.wf(),
        session.breakpoints.next_id < u32::MAX,
    ensures
        ({
            let id = session.breakpoints.next_id;
            let (added, step) = session.add_breakpoint(location, condition, hit_count);
            let file = match location {
                BreakpointLocation::Line { file, .. } => Some(file),
                BreakpointLocation::Function { .. } => None,
            };
            let table = session.breakpoints;
            let place = match file {
                Some(file) => table.breakpoints_of(file.key@).filter(
                    |bp: StoredBreakpoint| bp.enabled,
                ).len() as int,
                None => table.functions.len() as int,
            };
            match answered(added, step, seq![reports]).1 {
                StepView::Done(Ok(OutcomeView::Info(info))) => {
                    &&& info.id == id
                    &&& info.enabled
                    &&& info.condition == condition
                    &&& info.hit_count == hit_count
                    &&& info.verified == (place < reports.len() && reports[place].verified)
                    &&& info.line == if place < reports.len() && reports[place].line is Some {
                        reports[place].line
                    } else {
                        crate::breakpoints::wanted_line(location)
                    }
                    &&& info.message == if place < reports.len() {
                        reports[place].message
                    } else {
                        None
                    }
                    &&& info.source == Some(
                        match location {
                            BreakpointLocation::Line { file, .. } => if table.has_file(file.key@) {
                                table.files[table.place_of(file.key@)].path.text
                            } else {
                                file.text
                            },
                            BreakpointLocation::Function { name } => name,
                        },
                    )
                },
                _ => false,
            }
        }),
{
    reveal_with_fuel(answered, 2);
    let table = session.breakpoints;
    let id = table.next_id;
    let added = table.with_breakpoint(location, condition, hit_count);
    let new = crate::breakpoints::fresh(id, location, condition, hit_count);
    crate::breakpoints::lemma_with_breakpoint_wf(table, location, condition, hit_count);
    match location {
        BreakpointLocation::Line { file, .. } => {
            let p = if table.has_file(file.key@) {
                table.place_of(file.key@)
            } else {
                table.files.len() as int
            };
            assert(0 <= p < added.files.len());
            assert(added.files[p].path.key@ == file.key@);
            crate::breakpoints::lemma_place(added, file.key@, p);
            let bps = added.files[p].breakpoints;
            let n = table.breakpoints_of(file.key@).len() as int;
            assert(bps[n] == new);
            assert(bps.take(n) =~= table.breakpoints_of(file.key@));
            let confirmed = crate::breakpoints::confirmed_asked(bps, reports);
            let answered = added.with_line_answer(file.key@, reports);
            assert(answered == added.with_file(p, confirmed));
            crate::breakpoints::lemma_with_file_wf(added, p, confirmed);
            crate::breakpoints::lemma_shows_line(answered, p, n);
            crate::breakpoints::lemma_lookup(
                answered,
                crate::breakpoints::line_info(answered.files[p].path, confirmed[n]),
                id,
            );
        },
        BreakpointLocation::Function { .. } => {
            let n = table.functions.len() as int;
            assert(added.functions[n] == new);
            let answered = added.with_function_answer(reports);
            lemma_function_answer_wf(added, reports);
            crate::breakpoints::lemma_shows_function(answered, n);
            crate::breakpoints::lemma_lookup(
                answered,
                crate::breakpoints::function_info(answered.functions[n]),
                id,
            );
        },
    }
}

proof fn lemma_function_answer_wf(table: TableView, reports: Seq<Breakpoint>)
    requires
        table.wf(),
    ensures
        table.with_function_answer(reports).wf(),
{
    let after = table.with_function_answer(reports);
    assert forall|j: int| 0 <= j < after.functions.len() implies (
    #[trigger] after.functions[j]).id == table.functions[j].id && after.functions[j].location
        == table.functions[j].location by {
    }
}

/// A report on a breakpoint changes its status only: the same numbers are in use, and each still
/// stands for the same breakpoint, switched on or off as before.
pub proof fn law_report_changes_status_only(
    table: TableView,
    file: Seq<char>,
    line: u32,
    report: Breakpoint,
    id: u32,
)
    requires
        table.wf(),
    ensures
        table.with_report(file, line, report).wf(),
        table.with_report(file, line, report).next_id == table.next_id,
        match (table.with_report(file, line, report).lookup(id), table.lookup(id)) {
            (Ok(after), Ok(before)) => {
                ||| after == before
                ||| after == (BreakpointInfo {
                    verified: report.verified,
                    message: report.message,
                    line: after.line,
                    ..before
                })
            },
            (Err(after), Err(before)) => after == before,
            _ => false,
        },
{
    let after = table.with_report(file, line, report);
    if table.has_file(file) {
        let p = table.place_of(file);
        assert(0 <= p < table.files.len() && table.files[p].path.key@ == file);
        let bps = table.files[p].breakpoints;
        lemma_first_at_bounds(bps, line);
        crate::breakpoints::lemma_with_file_wf(
            table,
            p,
            crate::breakpoints::reported(bps, line, report),
        );
    }
    if table.has_line(id) {
        let i = choose|i: int| 0 <= i < table.files.len() && #[trigger] table.file_has(i, id);
        let j = choose|j: int|
            0 <= j < table.files[i].breakpoints.len() && #[trigger] table.files[i].breakpoints[j].id
                == id;
        assert(after.files[i].path == table.files[i].path);
        assert(after.files[i].breakpoints.len() == table.files[i].breakpoints.len());
        crate::breakpoints::lemma_shows_line(table, i, j);
        crate::breakpoints::lemma_shows_line(after, i, j);
        let path = table.files[i].path;
        crate::breakpoints::lemma_lookup(
            table,
            crate::breakpoints::line_info(path, table.files[i].breakpoints[j]),
            id,
        );
        crate::breakpoints::lemma_lookup(
            after,
            crate::breakpoints::line_info(path, after.files[i].breakpoints[j]),
            id,
        );
    } else if table.has_function(id) {
        let j = choose|j: int|
            0 <= j < table.functions.len() && #[trigger] table.functions[j].id == id;
        crate::breakpoints::lemma_shows_function(table, j);
        crate::breakpoints::lemma_shows_function(after, j);
        let info = crate::breakpoints::function_info(table.functions[j]);
        crate::breakpoints::lemma_lookup(table, info, id);
        crate::breakpoints::lemma_lookup(after, info, id);
    } else {
        if after.has_line(id) {
            let i = choose|i: int| 0 <= i < after.files.len() && #[trigger] after.file_has(i, id);
            let j = choose|j: int|
                0 <= j < after.files[i].breakpoints.len()
                    && #[trigger] after.files[i].breakpoints[j].id == id;
            assert(table.files[i].breakpoints[j].id == id);
            assert(table.file_has(i, id));
        }
        if after.has_function(id) {
            let j = choose|j: int|
                0 <= j < after.functions.len() && #[trigger] after.functions[j].id == id;
            assert(table.functions[j].id == id);
        }
    }
}

proof fn lemma_first_at_bounds(bps: Seq<StoredBreakpoint>, line: u32)
    ensures
        0 <= crate::breakpoints::first_at(bps, line) <= bps.len(),
    decreases bps.len(),
{
    if bps.len() > 0 && !crate::breakpoints::sits_at(bps[0], line) {
        lemma_first_at_bounds(bps.drop_first(), line);
    }
}

} // verus!
