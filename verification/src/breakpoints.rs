//! The breakpoints of a session.

use crate::error::Error;
use crate::paths::SourcePath;
use crate::protocol::{Breakpoint, FunctionBreakpoint, SourceBreakpoint};
use vstd::prelude::*;

verus! {

/// Where a breakpoint is wanted.
#[derive(Debug)]
pub enum BreakpointLocation {
    Line { file: SourcePath, line: u32 },
    Function { name: String },
}

/// What is known of a breakpoint.
#[derive(Debug)]
pub struct StoredBreakpoint {
    pub id: u32,
    pub location: BreakpointLocation,
    pub condition: Option<String>,
    pub hit_count: Option<u32>,
    pub enabled: bool,
    pub verified: bool,
    pub actual_line: Option<u32>,
    pub message: Option<String>,
}

/// A breakpoint as it is shown to the user.
#[derive(Debug)]
pub struct BreakpointInfo {
    pub id: u32,
    pub verified: bool,
    pub source: Option<String>,
    pub line: Option<u32>,
    pub message: Option<String>,
    pub enabled: bool,
    pub condition: Option<String>,
    pub hit_count: Option<u32>,
}

/// A fresh breakpoint: enabled, and not yet confirmed by the adapter.
pub open spec fn fresh(
    id: u32,
    location: BreakpointLocation,
    condition: Option<String>,
    hit_count: Option<u32>,
) -> StoredBreakpoint {
    StoredBreakpoint {
        id,
        location,
        condition,
        hit_count,
        enabled: true,
        verified: false,
        actual_line: None,
        message: None,
    }
}

/// The line that was asked for; `None` for a function.
pub open spec fn wanted_line(location: BreakpointLocation) -> Option<u32> {
    match location {
        BreakpointLocation::Line { line, .. } => Some(line),
        BreakpointLocation::Function { .. } => None,
    }
}

/// The hit condition that stands for a hit count: the count in decimal.
pub open spec fn hit_condition(hit_count: Option<u32>) -> Option<Seq<char>> {
    match hit_count {
        Some(n) => Some(crate::text::decimal(n as nat)),
        None => None,
    }
}

/// How a line breakpoint is put to the adapter.
pub open spec fn line_request(bp: StoredBreakpoint) -> crate::protocol::SourceBreakpointView {
    crate::protocol::SourceBreakpointView {
        line: match wanted_line(bp.location) {
            Some(line) => line,
            None => 0,
        },
        column: None,
        condition: crate::text::opt_text(bp.condition),
        hit_condition: hit_condition(bp.hit_count),
        log_message: None,
    }
}

/// How a function breakpoint is put to the adapter.
pub open spec fn function_request(bp: StoredBreakpoint) -> crate::protocol::FunctionBreakpointView {
    crate::protocol::FunctionBreakpointView {
        name: match bp.location {
            BreakpointLocation::Function { name } => name@,
            BreakpointLocation::Line { .. } => Seq::empty(),
        },
        condition: crate::text::opt_text(bp.condition),
        hit_condition: hit_condition(bp.hit_count),
    }
}

/// The requests for those of `bps` that are enabled, in order.
pub open spec fn line_requests(bps: Seq<StoredBreakpoint>) -> Seq<
    crate::protocol::SourceBreakpointView,
> {
    bps.filter(|bp: StoredBreakpoint| bp.enabled).map_values(
        |bp: StoredBreakpoint| line_request(bp),
    )
}

/// The requests for those of `bps` that are enabled, in order.
pub open spec fn function_requests(bps: Seq<StoredBreakpoint>) -> Seq<
    crate::protocol::FunctionBreakpointView,
> {
    bps.filter(|bp: StoredBreakpoint| bp.enabled).map_values(
        |bp: StoredBreakpoint| function_request(bp),
    )
}

/// `bp` with the status that the adapter reported for it.
pub open spec fn confirmed(bp: StoredBreakpoint, report: Breakpoint) -> StoredBreakpoint {
    StoredBreakpoint {
        verified: report.verified,
        actual_line: report.line,
        message: report.message,
        ..bp
    }
}

/// How many of the breakpoints before place `i` are enabled: the place of the one at `i`, where it
/// is enabled, in a request.
pub open spec fn rank(bps: Seq<StoredBreakpoint>, i: int) -> int {
    bps.take(i).filter(|bp: StoredBreakpoint| bp.enabled).len() as int
}

/// Line breakpoints with the reports of an answer put to those that were asked for: each report to
/// the enabled breakpoint at its place in the request. Disabled breakpoints, and enabled ones for
/// which the answer has no place, stay as they are; reports beyond the request are dropped.
pub open spec fn confirmed_asked(bps: Seq<StoredBreakpoint>, reports: Seq<Breakpoint>) -> Seq<
    StoredBreakpoint,
> {
    Seq::new(
        bps.len(),
        |i: int|
            if bps[i].enabled && rank(bps, i) < reports.len() {
                confirmed(bps[i], reports[rank(bps, i)])
            } else {
                bps[i]
            },
    )
}

/// Function breakpoints with the reports of an answer put to them place by place, whether they are
/// enabled or not. Breakpoints for which the answer has no place stay as they are, and reports
/// beyond the last breakpoint are dropped.
pub open spec fn confirmed_by_place(bps: Seq<StoredBreakpoint>, reports: Seq<Breakpoint>) -> Seq<
    StoredBreakpoint,
> {
    Seq::new(
        bps.len(),
        |i: int|
            if i < reports.len() {
                confirmed(bps[i], reports[i])
            } else {
                bps[i]
            },
    )
}

/// Whether a report on `line` is about `bp`: it was asked for there, or the adapter moved it
/// there.
pub open spec fn sits_at(bp: StoredBreakpoint, line: u32) -> bool {
    &&& bp.location is Line
    &&& bp.location->line == line || bp.actual_line == Some(line)
}

/// The place of the first of `bps` that sits at `line`; the length of `bps` where none does.
pub open spec fn first_at(bps: Seq<StoredBreakpoint>, line: u32) -> int
    decreases bps.len(),
{
    if bps.len() == 0 || sits_at(bps[0], line) {
        0
    } else {
        1 + first_at(bps.drop_first(), line)
    }
}

/// `bps` with the report on `line` put to the first breakpoint that sits there.
pub open spec fn reported(bps: Seq<StoredBreakpoint>, line: u32, report: Breakpoint) -> Seq<
    StoredBreakpoint,
> {
    let i = first_at(bps, line);
    if i < bps.len() {
        bps.update(i, confirmed(bps[i], report))
    } else {
        bps
    }
}

/// `bps` with the breakpoint `id` switched on or off.
pub open spec fn switched(bps: Seq<StoredBreakpoint>, id: u32, enabled: bool) -> Seq<
    StoredBreakpoint,
> {
    bps.map_values(
        |bp: StoredBreakpoint|
            if bp.id == id {
                StoredBreakpoint { enabled, ..bp }
            } else {
                bp
            },
    )
}

/// `bps` without the breakpoint `id`.
pub open spec fn without(bps: Seq<StoredBreakpoint>, id: u32) -> Seq<StoredBreakpoint> {
    bps.filter(|bp: StoredBreakpoint| bp.id != id)
}

/// How a line breakpoint of the file `path` is shown.
pub open spec fn line_info(path: SourcePath, bp: StoredBreakpoint) -> BreakpointInfo {
    BreakpointInfo {
        id: bp.id,
        verified: bp.verified,
        source: Some(path.text),
        line: if bp.actual_line is Some {
            bp.actual_line
        } else {
            wanted_line(bp.location)
        },
        message: bp.message,
        enabled: bp.enabled,
        condition: bp.condition,
        hit_count: bp.hit_count,
    }
}

/// How a function breakpoint is shown.
pub open spec fn function_info(bp: StoredBreakpoint) -> BreakpointInfo {
    BreakpointInfo {
        id: bp.id,
        verified: bp.verified,
        source: match bp.location {
            BreakpointLocation::Function { name } => Some(name),
            BreakpointLocation::Line { .. } => None,
        },
        line: bp.actual_line,
        message: bp.message,
        enabled: bp.enabled,
        condition: bp.condition,
        hit_count: bp.hit_count,
    }
}

/// A file and its breakpoints, in the order in which they were added.
#[verifier::ext_equal]
pub struct FileView {
    pub path: SourcePath,
    pub breakpoints: Seq<StoredBreakpoint>,
}

/// How the breakpoints of a file are shown.
pub open spec fn file_infos(file: FileView) -> Seq<BreakpointInfo> {
    file.breakpoints.map_values(|bp: StoredBreakpoint| line_info(file.path, bp))
}

/// How the breakpoints of all files are shown, file by file.
pub open spec fn files_infos(files: Seq<FileView>) -> Seq<BreakpointInfo>
    decreases files.len(),
{
    if files.len() == 0 {
        Seq::empty()
    } else {
        files_infos(files.drop_last()) + file_infos(files.last())
    }
}

/// All breakpoints of a session: those on lines by file, files in the order in which they first
/// came up, then those on functions.
#[verifier::ext_equal]
pub struct TableView {
    pub files: Seq<FileView>,
    pub functions: Seq<StoredBreakpoint>,
    pub next_id: u32,
}

impl TableView {
    /// The table without a breakpoint.
    pub open spec fn empty() -> TableView {
        TableView { files: Seq::empty(), functions: Seq::empty(), next_id: 1 }
    }

    /// Whether a breakpoint of the file at place `i` has the number `id`.
    pub open spec fn file_has(self, i: int, id: u32) -> bool {
        exists|j: int|
            0 <= j < self.files[i].breakpoints.len() && #[trigger] self.files[i].breakpoints[j].id
                == id
    }

    /// Whether a line breakpoint has the number `id`.
    pub open spec fn has_line(self, id: u32) -> bool {
        exists|i: int| 0 <= i < self.files.len() && #[trigger] self.file_has(i, id)
    }

    /// Whether a function breakpoint has the number `id`.
    pub open spec fn has_function(self, id: u32) -> bool {
        exists|j: int| 0 <= j < self.functions.len() && #[trigger] self.functions[j].id == id
    }

    /// Whether a breakpoint has the number `id`.
    pub open spec fn has(self, id: u32) -> bool {
        self.has_line(id) || self.has_function(id)
    }

    /// Numbers are given out once: each breakpoint's own is below the next one.
    pub open spec fn numbered(self) -> bool {
        &&& 1 <= self.next_id
        &&& forall|i: int, j: int|
            0 <= i < self.files.len() && 0 <= j < self.files[i].breakpoints.len() ==> 1 <= (
            #[trigger] self.files[i].breakpoints[j]).id < self.next_id
        &&& forall|j: int|
            0 <= j < self.functions.len() ==> 1 <= (#[trigger] self.functions[j]).id < self.next_id
    }

    /// No two breakpoints have the same number.
    pub open spec fn unique(self) -> bool {
        &&& forall|i: int, j: int, k: int, l: int|
            #![trigger self.files[i].breakpoints[j], self.files[k].breakpoints[l]]
            0 <= i < self.files.len() && 0 <= j < self.files[i].breakpoints.len() && 0 <= k
                < self.files.len() && 0 <= l < self.files[k].breakpoints.len()
                && self.files[i].breakpoints[j].id == self.files[k].breakpoints[l].id ==> i == k
                && j == l
        &&& forall|j: int, l: int|
            #![trigger self.functions[j], self.functions[l]]
            0 <= j < self.functions.len() && 0 <= l < self.functions.len()
                && self.functions[j].id == self.functions[l].id ==> j == l
        &&& forall|i: int, j: int, l: int|
            #![trigger self.files[i].breakpoints[j], self.functions[l]]
            0 <= i < self.files.len() && 0 <= j < self.files[i].breakpoints.len() && 0 <= l
                < self.functions.len() ==> self.files[i].breakpoints[j].id
                != self.functions[l].id
    }

    /// Each file stands once, with breakpoints on its own lines; breakpoints on functions stand
    /// apart.
    pub open spec fn sorted_out(self) -> bool {
        &&& forall|i: int, k: int|
            #![trigger self.files[i], self.files[k]]
            0 <= i < self.files.len() && 0 <= k < self.files.len() && self.files[i].path.same_file(
                self.files[k].path,
            ) ==> i == k
        &&& forall|i: int, j: int|
            0 <= i < self.files.len() && 0 <= j < self.files[i].breakpoints.len() ==> {
                let location = (#[trigger] self.files[i].breakpoints[j]).location;
                location is Line && location->file.same_file(self.files[i].path)
            }
        &&& forall|j: int|
            0 <= j < self.functions.len() ==> (
            #[trigger] self.functions[j]).location is Function
    }

    /// What every operation on the table keeps.
    pub open spec fn wf(self) -> bool {
        self.numbered() && self.unique() && self.sorted_out()
    }

    /// Whether the file of that key has an entry.
    pub open spec fn has_file(self, file: Seq<char>) -> bool {
        exists|i: int| 0 <= i < self.files.len() && #[trigger] self.files[i].path.key@ == file
    }

    /// The place of the entry of the file of that key.
    pub open spec fn place_of(self, file: Seq<char>) -> int {
        choose|i: int| 0 <= i < self.files.len() && #[trigger] self.files[i].path.key@ == file
    }

    /// The breakpoints of the file of that key.
    pub open spec fn breakpoints_of(self, file: Seq<char>) -> Seq<StoredBreakpoint> {
        if self.has_file(file) {
            self.files[self.place_of(file)].breakpoints
        } else {
            Seq::empty()
        }
    }

    /// The table with other breakpoints for the file at place `i`.
    pub open spec fn with_file(self, i: int, breakpoints: Seq<StoredBreakpoint>) -> TableView {
        TableView {
            files: self.files.update(i, FileView { breakpoints, ..self.files[i] }),
            ..self
        }
    }

    /// The table with a fresh breakpoint, which takes the next number.
    pub open spec fn with_breakpoint(
        self,
        location: BreakpointLocation,
        condition: Option<String>,
        hit_count: Option<u32>,
    ) -> TableView {
        let bp = fresh(self.next_id, location, condition, hit_count);
        let added = match location {
            BreakpointLocation::Line { file, .. } => if self.has_file(file.key@) {
                self.with_file(self.place_of(file.key@), self.breakpoints_of(file.key@).push(bp))
            } else {
                TableView {
                    files: self.files.push(FileView { path: file, breakpoints: seq![bp] }),
                    ..self
                }
            },
            BreakpointLocation::Function { .. } => TableView {
                functions: self.functions.push(bp),
                ..self
            },
        };
        TableView { next_id: (self.next_id + 1) as u32, ..added }
    }

    /// The table with the adapter's answer to a request for the file's breakpoints.
    pub open spec fn with_line_answer(
        self,
        file: Seq<char>,
        reports: Seq<Breakpoint>,
    ) -> TableView {
        if self.has_file(file) {
            self.with_file(self.place_of(file), confirmed_asked(self.breakpoints_of(file), reports))
        } else {
            self
        }
    }

    /// The table with the adapter's answer to a request for the function breakpoints, put to them
    /// place by place.
    pub open spec fn with_function_answer(self, reports: Seq<Breakpoint>) -> TableView {
        TableView { functions: confirmed_by_place(self.functions, reports), ..self }
    }

    /// The table with a report on a line of a file.
    pub open spec fn with_report(
        self,
        file: Seq<char>,
        line: u32,
        report: Breakpoint,
    ) -> TableView {
        if self.has_file(file) {
            self.with_file(self.place_of(file), reported(self.breakpoints_of(file), line, report))
        } else {
            self
        }
    }

    /// The table with the breakpoint `id` switched on or off.
    pub open spec fn with_switched(self, id: u32, enabled: bool) -> TableView {
        TableView {
            files: self.files.map_values(
                |file: FileView| FileView {
                    breakpoints: switched(file.breakpoints, id, enabled),
                    ..file
                },
            ),
            functions: switched(self.functions, id, enabled),
            ..self
        }
    }

    /// The table without the breakpoint `id`.
    pub open spec fn without(self, id: u32) -> TableView {
        TableView {
            files: self.files.map_values(
                |file: FileView| FileView { breakpoints: without(file.breakpoints, id), ..file },
            ),
            functions: without(self.functions, id),
            ..self
        }
    }

    /// How all breakpoints are shown: those on lines, then those on functions.
    pub open spec fn infos(self) -> Seq<BreakpointInfo> {
        files_infos(self.files) + self.functions.map_values(
            |bp: StoredBreakpoint| function_info(bp),
        )
    }

    /// Whether `info` shows the breakpoint `id`.
    pub open spec fn shows(self, info: BreakpointInfo, id: u32) -> bool {
        self.infos().contains(info) && info.id == id
    }

    /// How the breakpoint `id` is shown; an error where no breakpoint has that number.
    pub open spec fn lookup(self, id: u32) -> Result<BreakpointInfo, crate::error::ErrorView> {
        if self.has(id) {
            Ok(choose|info: BreakpointInfo| self.shows(info, id))
        } else {
            Err(crate::error::ErrorView::BreakpointNotFound { id })
        }
    }

    /// The path of the file with the line breakpoint `id`; `None` where it is on a function.
    pub open spec fn file_of(self, id: u32) -> Option<SourcePath> {
        if self.has_line(id) {
            Some(self.files[choose|i: int| 0 <= i < self.files.len() && self.file_has(i, id)].path)
        } else {
            None
        }
    }
}

/// A file's entry has only one place.
pub proof fn lemma_place(table: TableView, file: Seq<char>, i: int)
    requires
        table.sorted_out(),
        0 <= i < table.files.len(),
        table.files[i].path.key@ == file,
    ensures
        table.has_file(file),
        table.place_of(file) == i,
{
    let k = table.place_of(file);
    assert(0 <= k < table.files.len() && table.files[k].path.key@ == file);
    assert(table.files[i].path.same_file(table.files[k].path));
}

proof fn lemma_first_at(bps: Seq<StoredBreakpoint>, line: u32, n: int)
    requires
        0 <= n <= bps.len(),
        forall|k: int| 0 <= k < n ==> !sits_at(#[trigger] bps[k], line),
        n < bps.len() ==> sits_at(bps[n], line),
    ensures
        first_at(bps, line) == n,
    decreases n,
{
    if n > 0 {
        assert(!sits_at(bps[0], line));
        let rest = bps.drop_first();
        assert forall|k: int| 0 <= k < n - 1 implies !sits_at(#[trigger] rest[k], line) by {
            assert(rest[k] == bps[k + 1]);
        }
        lemma_first_at(rest, line, n - 1);
    }
}

proof fn lemma_files_infos_contains(files: Seq<FileView>, info: BreakpointInfo)
    ensures
        files_infos(files).contains(info) <==> exists|i: int, j: int|
            #![trigger files[i].breakpoints[j]]
            0 <= i < files.len() && 0 <= j < files[i].breakpoints.len() && info == line_info(
                files[i].path,
                files[i].breakpoints[j],
            ),
    decreases files.len(),
{
    if files.len() > 0 {
        let front = files.drop_last();
        let last = files.last();
        let n = files.len() - 1;
        lemma_files_infos_contains(front, info);
        let head = files_infos(front);
        let tail = file_infos(last);
        assert(files_infos(files) == head + tail);
        if files_infos(files).contains(info) {
            let k = choose|k: int| 0 <= k < (head + tail).len() && (head + tail)[k] == info;
            if k < head.len() {
                assert(head[k] == info);
                assert(head.contains(info));
                let (i, j) = choose|i: int, j: int|
                    #![trigger front[i].breakpoints[j]]
                    0 <= i < front.len() && 0 <= j < front[i].breakpoints.len() && info
                        == line_info(front[i].path, front[i].breakpoints[j]);
                assert(files[i].breakpoints[j] == front[i].breakpoints[j]);
            } else {
                let j = k - head.len();
                assert(tail[j] == info);
                assert(info == line_info(files[n].path, files[n].breakpoints[j]));
            }
        }
        if exists|i: int, j: int|
            #![trigger files[i].breakpoints[j]]
            0 <= i < files.len() && 0 <= j < files[i].breakpoints.len() && info == line_info(
                files[i].path,
                files[i].breakpoints[j],
            ) {
            let (i, j) = choose|i: int, j: int|
                #![trigger files[i].breakpoints[j]]
                0 <= i < files.len() && 0 <= j < files[i].breakpoints.len() && info == line_info(
                    files[i].path,
                    files[i].breakpoints[j],
                );
            if i < n {
                assert(front[i].breakpoints[j] == files[i].breakpoints[j]);
                let k = choose|k: int| 0 <= k < head.len() && head[k] == info;
                assert((head + tail)[k] == info);
            } else {
                assert(tail[j] == info);
                assert((head + tail)[head.len() + j] == info);
            }
        }
    }
}

/// A line breakpoint is shown.
pub proof fn lemma_shows_line(table: TableView, i: int, j: int)
    requires
        0 <= i < table.files.len(),
        0 <= j < table.files[i].breakpoints.len(),
    ensures
        table.shows(
            line_info(table.files[i].path, table.files[i].breakpoints[j]),
            table.files[i].breakpoints[j].id,
        ),
{
    let info = line_info(table.files[i].path, table.files[i].breakpoints[j]);
    lemma_files_infos_contains(table.files, info);
    let head = files_infos(table.files);
    let k = choose|k: int| 0 <= k < head.len() && head[k] == info;
    assert(table.infos()[k] == info);
}

/// A function breakpoint is shown.
pub proof fn lemma_shows_function(table: TableView, j: int)
    requires
        0 <= j < table.functions.len(),
    ensures
        table.shows(function_info(table.functions[j]), table.functions[j].id),
{
    assert(table.infos()[files_infos(table.files).len() + j] == function_info(table.functions[j]));
}

/// What shows the breakpoint `id` is a line breakpoint of that number or a function breakpoint of
/// that number.
pub proof fn lemma_shown(table: TableView, info: BreakpointInfo, id: u32)
    requires
        table.shows(info, id),
    ensures
        ({
            ||| exists|i: int, j: int|
                #![trigger table.files[i].breakpoints[j]]
                0 <= i < table.files.len() && 0 <= j < table.files[i].breakpoints.len()
                    && table.files[i].breakpoints[j].id == id && info == line_info(
                    table.files[i].path,
                    table.files[i].breakpoints[j],
                )
            ||| exists|j: int|
                0 <= j < table.functions.len() && (#[trigger] table.functions[j]).id == id && info
                    == function_info(table.functions[j])
        }),
        table.has(id),
{
    let head = files_infos(table.files);
    let k = choose|k: int| 0 <= k < table.infos().len() && table.infos()[k] == info;
    if k < head.len() {
        assert(head[k] == info);
        assert(head.contains(info));
        lemma_files_infos_contains(table.files, info);
        let (i, j) = choose|i: int, j: int|
            #![trigger table.files[i].breakpoints[j]]
            0 <= i < table.files.len() && 0 <= j < table.files[i].breakpoints.len() && info
                == line_info(table.files[i].path, table.files[i].breakpoints[j]);
        assert(table.files[i].breakpoints[j].id == id);
        assert(table.file_has(i, id));
    } else {
        let j = k - head.len();
        assert(table.functions[j].id == id && info == function_info(table.functions[j]));
    }
}

/// A number is shown in one way only.
pub proof fn lemma_shown_once(table: TableView, a: BreakpointInfo, b: BreakpointInfo, id: u32)
    requires
        table.unique(),
        table.shows(a, id),
        table.shows(b, id),
    ensures
        a == b,
{
    lemma_shown(table, a, id);
    lemma_shown(table, b, id);
}

/// Looking up a number finds what shows it.
pub proof fn lemma_lookup(table: TableView, info: BreakpointInfo, id: u32)
    requires
        table.unique(),
        table.shows(info, id),
    ensures
        table.lookup(id) == Ok::<BreakpointInfo, crate::error::ErrorView>(info),
{
    lemma_shown(table, info, id);
    let chosen = choose|info: BreakpointInfo| table.shows(info, id);
    lemma_shown_once(table, info, chosen, id);
}

/// A number stands in one file only.
pub proof fn lemma_file_of(table: TableView, i: int, id: u32)
    requires
        table.unique(),
        0 <= i < table.files.len(),
        table.file_has(i, id),
    ensures
        table.has_line(id),
        table.file_of(id) == Some(table.files[i].path),
{
    let k = choose|i: int| 0 <= i < table.files.len() && table.file_has(i, id);
    let j = choose|j: int|
        0 <= j < table.files[i].breakpoints.len() && #[trigger] table.files[i].breakpoints[j].id
            == id;
    let l = choose|l: int|
        0 <= l < table.files[k].breakpoints.len() && #[trigger] table.files[k].breakpoints[l].id
            == id;
    assert(table.files[i].breakpoints[j].id == table.files[k].breakpoints[l].id);
}

/// Taking out the only element with a number leaves the elements without it.
pub proof fn lemma_remove_is_without(bps: Seq<StoredBreakpoint>, j: int)
    requires
        0 <= j < bps.len(),
        forall|l: int| 0 <= l < bps.len() && l != j ==> (#[trigger] bps[l]).id != bps[j].id,
    ensures
        bps.remove(j) == without(bps, bps[j].id),
{
    let id = bps[j].id;
    let keep = |bp: StoredBreakpoint| bp.id != id;
    let front = bps.take(j);
    let back = bps.skip(j + 1);
    assert(bps =~= front + (seq![bps[j]] + back));
    Seq::filter_distributes_over_add(front, seq![bps[j]] + back, keep);
    Seq::filter_distributes_over_add(seq![bps[j]], back, keep);
    lemma_without_absent(front, id);
    lemma_without_absent(back, id);
    assert(seq![bps[j]].filter(keep) =~= Seq::<StoredBreakpoint>::empty()) by {
        reveal_with_fuel(Seq::filter, 2);
    }
    assert(bps.remove(j) =~= front + (Seq::<StoredBreakpoint>::empty() + back));
}

/// Where no element has the number, nothing is left out.
pub proof fn lemma_without_absent(bps: Seq<StoredBreakpoint>, id: u32)
    requires
        forall|l: int| 0 <= l < bps.len() ==> (#[trigger] bps[l]).id != id,
    ensures
        without(bps, id) == bps,
    decreases bps.len(),
{
    reveal(Seq::filter);
    if bps.len() > 0 {
        lemma_without_absent(bps.drop_last(), id);
        assert(bps =~= bps.drop_last().push(bps.last()));
    }
}

/// Other breakpoints with the same numbers on the same lines leave the table well-formed.
pub proof fn lemma_with_file_wf(table: TableView, i: int, breakpoints: Seq<StoredBreakpoint>)
    requires
        table.wf(),
        0 <= i < table.files.len(),
        breakpoints.len() == table.files[i].breakpoints.len(),
        forall|j: int|
            0 <= j < breakpoints.len() ==> (#[trigger] breakpoints[j]).id
                == table.files[i].breakpoints[j].id && breakpoints[j].location
                == table.files[i].breakpoints[j].location,
    ensures
        table.with_file(i, breakpoints).wf(),
{
    let after = table.with_file(i, breakpoints);
    assert forall|k: int, j: int|
        0 <= k < after.files.len() && 0 <= j < after.files[k].breakpoints.len() implies (
    #[trigger] after.files[k].breakpoints[j]).id == table.files[k].breakpoints[j].id
        && after.files[k].breakpoints[j].location == table.files[k].breakpoints[j].location
        && after.files[k].path == table.files[k].path by {
        if k == i {
            assert(after.files[k].breakpoints[j] == breakpoints[j]);
        }
    }
    assert forall|k: int, l: int|
        #![trigger after.files[k], after.files[l]]
        0 <= k < after.files.len() && 0 <= l < after.files.len() && after.files[k].path.same_file(
            after.files[l].path,
        ) implies k == l by {
        assert(table.files[k].path.same_file(table.files[l].path));
    }
}

/// A fresh breakpoint leaves the table well-formed, and the table has it.
pub proof fn lemma_with_breakpoint_wf(
    table: TableView,
    location: BreakpointLocation,
    condition: Option<String>,
    hit_count: Option<u32>,
)
    requires
        table.wf(),
        table.next_id < u32::MAX,
    ensures
        table.with_breakpoint(location, condition, hit_count).wf(),
        table.with_breakpoint(location, condition, hit_count).has(table.next_id),
{
    let after = table.with_breakpoint(location, condition, hit_count);
    let bp = fresh(table.next_id, location, condition, hit_count);
    match location {
        BreakpointLocation::Line { file, .. } => {
            let p = if table.has_file(file.key@) {
                table.place_of(file.key@)
            } else {
                table.files.len() as int
            };
            let n = after.files[p].breakpoints.len() - 1;
            assert(0 <= p < after.files.len());
            assert(after.files[p].breakpoints[n] == bp);
            assert(after.files[p].breakpoints[n].id == table.next_id);
            assert(after.file_has(p, table.next_id));
            assert forall|i: int, j: int|
                0 <= i < after.files.len() && 0 <= j < after.files[i].breakpoints.len() && !(i == p
                    && j == n) implies 0 <= i < table.files.len() && 0 <= j
                < table.files[i].breakpoints.len() && #[trigger] after.files[i].breakpoints[j]
                == table.files[i].breakpoints[j] && after.files[i].path == table.files[i].path by {
            }
            assert forall|k: int, l: int|
                #![trigger after.files[k], after.files[l]]
                0 <= k < after.files.len() && 0 <= l < after.files.len()
                    && after.files[k].path.same_file(after.files[l].path) implies k == l by {
                if k < table.files.len() && l < table.files.len() {
                    assert(table.files[k].path.same_file(table.files[l].path));
                } else if k < table.files.len() {
                    assert(table.files[k].path.key@ == file.key@);
                } else if l < table.files.len() {
                    assert(table.files[l].path.key@ == file.key@);
                }
            }
        },
        BreakpointLocation::Function { .. } => {
            assert(after.functions[after.functions.len() - 1].id == table.next_id);
        },
    }
}

/// Switching a breakpoint leaves the table well-formed.
pub proof fn lemma_with_switched_wf(table: TableView, id: u32, enabled: bool)
    requires
        table.wf(),
    ensures
        table.with_switched(id, enabled).wf(),
{
    let after = table.with_switched(id, enabled);
    assert forall|i: int, j: int|
        0 <= i < after.files.len() && 0 <= j < after.files[i].breakpoints.len() implies (
    #[trigger] after.files[i].breakpoints[j]).id == table.files[i].breakpoints[j].id
        && after.files[i].breakpoints[j].location == table.files[i].breakpoints[j].location
        && after.files[i].path == table.files[i].path by {
    }
    assert forall|j: int| 0 <= j < after.functions.len() implies (
    #[trigger] after.functions[j]).id == table.functions[j].id && after.functions[j].location
        == table.functions[j].location by {
    }
    assert forall|k: int, l: int|
        #![trigger after.files[k], after.files[l]]
        0 <= k < after.files.len() && 0 <= l < after.files.len() && after.files[k].path.same_file(
            after.files[l].path,
        ) implies k == l by {
        assert(table.files[k].path.same_file(table.files[l].path));
    }
}

/// Removing the line breakpoint at place `j` of the file at place `i` takes out nothing else.
pub proof fn lemma_without_line(table: TableView, i: int, j: int)
    requires
        table.wf(),
        0 <= i < table.files.len(),
        0 <= j < table.files[i].breakpoints.len(),
    ensures
        table.without(table.files[i].breakpoints[j].id) == table.with_file(
            i,
            table.files[i].breakpoints.remove(j),
        ),
{
    let id = table.files[i].breakpoints[j].id;
    let after = table.with_file(i, table.files[i].breakpoints.remove(j));
    assert forall|k: int| 0 <= k < table.files.len() implies #[trigger] table.without(id).files[k]
        == after.files[k] by {
        if k == i {
            assert forall|l: int|
                0 <= l < table.files[i].breakpoints.len() && l != j implies (
            #[trigger] table.files[i].breakpoints[l]).id != id by {
            }
            lemma_remove_is_without(table.files[i].breakpoints, j);
        } else {
            lemma_without_absent(table.files[k].breakpoints, id);
        }
    }
    assert(table.without(id).files =~= after.files);
    assert forall|l: int| 0 <= l < table.functions.len() implies (
    #[trigger] table.functions[l]).id != id by {
        assert(table.files[i].breakpoints[j].id != table.functions[l].id);
    }
    lemma_without_absent(table.functions, id);
}

/// Removing the function breakpoint at place `j` takes out nothing else.
pub proof fn lemma_without_function(table: TableView, j: int)
    requires
        table.wf(),
        0 <= j < table.functions.len(),
    ensures
        table.without(table.functions[j].id) == (TableView {
            functions: table.functions.remove(j),
            ..table
        }),
{
    let id = table.functions[j].id;
    assert forall|k: int| 0 <= k < table.files.len() implies #[trigger] table.without(id).files[k]
        == table.files[k] by {
        assert forall|l: int|
            0 <= l < table.files[k].breakpoints.len() implies (
        #[trigger] table.files[k].breakpoints[l]).id != id by {
            assert(table.files[k].breakpoints[l].id != table.functions[j].id);
        }
        lemma_without_absent(table.files[k].breakpoints, id);
    }
    assert(table.without(id).files =~= table.files);
    lemma_remove_is_without(table.functions, j);
}

/// Removing a breakpoint leaves the table well-formed.
pub proof fn lemma_without_wf(table: TableView, id: u32)
    requires
        table.wf(),
    ensures
        table.without(id).wf(),
        !table.without(id).has(id),
{
    let after = table.without(id);
    if table.has_line(id) {
        let i = choose|i: int| 0 <= i < table.files.len() && #[trigger] table.file_has(i, id);
        let j = choose|j: int|
            0 <= j < table.files[i].breakpoints.len() && #[trigger] table.files[i].breakpoints[j].id
                == id;
        lemma_without_line(table, i, j);
        let bps = table.files[i].breakpoints;
        assert forall|k: int, l: int|
            0 <= k < after.files.len() && 0 <= l < after.files[k].breakpoints.len() implies {
            let m = if k == i && l >= j {
                l + 1
            } else {
                l
            };
            &&& m < table.files[k].breakpoints.len()
            &&& #[trigger] after.files[k].breakpoints[l] == table.files[k].breakpoints[m]
            &&& after.files[k].path == table.files[k].path
            &&& !(k == i && m == j)
        } by {
        }
    } else if table.has_function(id) {
        let j = choose|j: int|
            0 <= j < table.functions.len() && #[trigger] table.functions[j].id == id;
        lemma_without_function(table, j);
    } else {
        assert forall|k: int| 0 <= k < table.files.len() implies #[trigger] after.files[k]
            == table.files[k] by {
            assert(!table.file_has(k, id));
            lemma_without_absent(table.files[k].breakpoints, id);
        }
        assert(after.files =~= table.files);
        lemma_without_absent(table.functions, id);
    }
    assert forall|k: int, l: int|
        #![trigger after.files[k], after.files[l]]
        0 <= k < after.files.len() && 0 <= l < after.files.len() && after.files[k].path.same_file(
            after.files[l].path,
        ) implies k == l by {
        assert(table.files[k].path.same_file(table.files[l].path));
    }
}

/// One more breakpoint makes one more request where it is enabled.
pub proof fn lemma_requests_push(bps: Seq<StoredBreakpoint>, bp: StoredBreakpoint)
    ensures
        line_requests(bps.push(bp)) == if bp.enabled {
            line_requests(bps).push(line_request(bp))
        } else {
            line_requests(bps)
        },
        function_requests(bps.push(bp)) == if bp.enabled {
            function_requests(bps).push(function_request(bp))
        } else {
            function_requests(bps)
        },
{
    reveal(Seq::filter);
    assert(bps.push(bp).drop_last() =~= bps);
    assert(line_requests(bps.push(bp)) =~= if bp.enabled {
        line_requests(bps).push(line_request(bp))
    } else {
        line_requests(bps)
    });
    assert(function_requests(bps.push(bp)) =~= if bp.enabled {
        function_requests(bps).push(function_request(bp))
    } else {
        function_requests(bps)
    });
}

/// A file with line breakpoints.
#[derive(Debug)]
struct SourceFile {
    path: SourcePath,
    breakpoints: Vec<StoredBreakpoint>,
}

impl View for SourceFile {
    type V = FileView;

    closed spec fn view(&self) -> FileView {
        FileView { path: self.path, breakpoints: self.breakpoints@ }
    }
}

/// The breakpoints of a session.
#[derive(Debug)]
pub struct BreakpointTable {
    files: Vec<SourceFile>,
    functions: Vec<StoredBreakpoint>,
    next_id: u32,
}

impl View for BreakpointTable {
    type V = TableView;

    closed spec fn view(&self) -> TableView {
        TableView {
            files: self.files@.map_values(|file: SourceFile| file@),
            functions: self.functions@,
            next_id: self.next_id,
        }
    }
}

/// Writes a hit count as the condition that the adapter takes.
fn hit_condition_text(hit_count: Option<u32>) -> (text: Option<String>)
    ensures
        crate::text::opt_text(text) == hit_condition(hit_count),
{
    match hit_count {
        Some(n) => Some(crate::text::decimal_text(n as u64)),
        None => None,
    }
}

/// Puts a report to a breakpoint.
fn confirm(bp: &mut StoredBreakpoint, report: &Breakpoint)
    ensures
        *final(bp) == confirmed(*old(bp), *report),
{
    bp.verified = report.verified;
    bp.actual_line = report.line;
    bp.message = report.message.clone();
}

/// One enabled breakpoint more raises the rank by one, and a disabled one leaves it.
proof fn lemma_rank_next(bps: Seq<StoredBreakpoint>, i: int)
    requires
        0 <= i < bps.len(),
    ensures
        rank(bps, i + 1) == if bps[i].enabled {
            rank(bps, i) + 1
        } else {
            rank(bps, i)
        },
        0 <= rank(bps, i) <= i,
{
    let on = |bp: StoredBreakpoint| bp.enabled;
    reveal(Seq::filter);
    assert(bps.take(i + 1).drop_last() =~= bps.take(i));
    bps.take(i).lemma_filter_len(on);
}

/// Puts each report of an answer to the enabled breakpoint at its place in the request.
fn confirm_asked(bps: &mut Vec<StoredBreakpoint>, reports: &Vec<Breakpoint>)
    ensures
        final(bps)@ == confirmed_asked(old(bps)@, reports@),
{
    let mut i: usize = 0;
    let mut asked: usize = 0;
    proof {
        reveal(Seq::filter);
        assert(bps@.take(0) =~= Seq::<StoredBreakpoint>::empty());
    }
    while i < bps.len()
        invariant
            bps@.len() == old(bps)@.len(),
            asked <= i <= bps@.len(),
            asked == rank(old(bps)@, i as int),
            forall|k: int|
                0 <= k < i ==> #[trigger] bps@[k] == confirmed_asked(old(bps)@, reports@)[k],
            forall|k: int| i <= k < bps@.len() ==> bps@[k] == old(bps)@[k],
        decreases bps@.len() - i,
    {
        proof {
            lemma_rank_next(old(bps)@, i as int);
        }
        if bps[i].enabled {
            if asked < reports.len() {
                confirm(&mut bps[i], &reports[asked]);
            }
            asked = asked + 1;
        }
        i = i + 1;
    }
}

/// Puts the reports of an answer to breakpoints place by place.
fn confirm_by_place(bps: &mut Vec<StoredBreakpoint>, reports: &Vec<Breakpoint>)
    ensures
        final(bps)@ == confirmed_by_place(old(bps)@, reports@),
{
    let mut i: usize = 0;
    while i < bps.len() && i < reports.len()
        invariant
            bps@.len() == old(bps)@.len(),
            i <= bps@.len(),
            i <= reports@.len(),
            forall|k: int| 0 <= k < i ==> bps@[k] == confirmed(old(bps)@[k], reports@[k]),
            forall|k: int| i <= k < bps@.len() ==> bps@[k] == old(bps)@[k],
        decreases bps@.len() - i,
    {
        confirm(&mut bps[i], &reports[i]);
        i = i + 1;
    }
}

/// The place of the breakpoint `id`.
fn position(bps: &Vec<StoredBreakpoint>, id: u32) -> (place: Option<usize>)
    ensures
        match place {
            Some(i) => i < bps@.len() && bps@[i as int].id == id,
            None => forall|k: int| 0 <= k < bps@.len() ==> (#[trigger] bps@[k]).id != id,
        },
{
    let mut i: usize = 0;
    while i < bps.len()
        invariant
            i <= bps@.len(),
            forall|k: int| 0 <= k < i ==> (#[trigger] bps@[k]).id != id,
        decreases bps@.len() - i,
    {
        if bps[i].id == id {
            return Some(i);
        }
        i = i + 1;
    }
    None
}

/// Shows a line breakpoint.
fn show_line(path: &SourcePath, bp: &StoredBreakpoint) -> (info: BreakpointInfo)
    ensures
        info == line_info(*path, *bp),
{
    BreakpointInfo {
        id: bp.id,
        verified: bp.verified,
        source: Some(path.text.clone()),
        line: match bp.actual_line {
            Some(line) => Some(line),
            None => match &bp.location {
                BreakpointLocation::Line { line, .. } => Some(*line),
                BreakpointLocation::Function { .. } => None,
            },
        },
        message: bp.message.clone(),
        enabled: bp.enabled,
        condition: bp.condition.clone(),
        hit_count: bp.hit_count,
    }
}

/// Shows a function breakpoint.
fn show_function(bp: &StoredBreakpoint) -> (info: BreakpointInfo)
    ensures
        info == function_info(*bp),
{
    BreakpointInfo {
        id: bp.id,
        verified: bp.verified,
        source: match &bp.location {
            BreakpointLocation::Function { name } => Some(name.clone()),
            BreakpointLocation::Line { .. } => None,
        },
        line: bp.actual_line,
        message: bp.message.clone(),
        enabled: bp.enabled,
        condition: bp.condition.clone(),
        hit_count: bp.hit_count,
    }
}

impl BreakpointTable {
    /// What every operation keeps.
    pub open spec fn wf(&self) -> bool {
        self@.wf()
    }

    /// A table without a breakpoint.
    pub fn new() -> (table: BreakpointTable)
        ensures
            table.wf(),
            table@ == TableView::empty(),
    {
        let table = BreakpointTable { files: Vec::new(), functions: Vec::new(), next_id: 1 };
        assert(table@.files =~= Seq::<FileView>::empty());
        table
    }

    /// The number that the next breakpoint takes.
    pub fn next_id(&self) -> (id: u32)
        ensures
            id == self@.next_id,
    {
        self.next_id
    }

    fn find_file(&self, file: &SourcePath) -> (place: Option<usize>)
        requires
            self.wf(),
        ensures
            match place {
                Some(i) => {
                    &&& i < self.files@.len()
                    &&& self@.has_file(file.key@)
                    &&& self@.place_of(file.key@) == i
                },
                None => !self@.has_file(file.key@),
            },
    {
        let mut i: usize = 0;
        while i < self.files.len()
            invariant
                self.wf(),
                i <= self.files@.len(),
                forall|k: int| 0 <= k < i ==> (#[trigger] self@.files[k]).path.key@ != file.key@,
            decreases self.files@.len() - i,
        {
            assert(self@.files[i as int] == self.files@[i as int]@);
            if self.files[i].path.names_same_file(file) {
                proof {
                    lemma_place(self@, file.key@, i as int);
                }
                return Some(i);
            }
            i = i + 1;
        }
        None
    }

    /// Adds a breakpoint and returns its number.
    pub fn add(
        &mut self,
        location: BreakpointLocation,
        condition: Option<String>,
        hit_count: Option<u32>,
    ) -> (id: u32)
        requires
            old(self).wf(),
            old(self)@.next_id < u32::MAX,
        ensures
            final(self).wf(),
            final(self)@ == old(self)@.with_breakpoint(location, condition, hit_count),
            id == old(self)@.next_id,
            final(self)@.has(id),
    {
        let id = self.next_id;
        let ghost bp = fresh(id, location, condition, hit_count);
        proof {
            lemma_with_breakpoint_wf(self@, location, condition, hit_count);
        }
        let place = match &location {
            BreakpointLocation::Line { file, .. } => Some((self.find_file(file), file.clone())),
            BreakpointLocation::Function { .. } => None,
        };
        let stored = StoredBreakpoint {
            id,
            location,
            condition,
            hit_count,
            enabled: true,
            verified: false,
            actual_line: None,
            message: None,
        };
        self.next_id = id + 1;
        match place {
            Some((Some(i), _)) => {
                self.files[i].breakpoints.push(stored);
            },
            Some((None, file)) => {
                let mut breakpoints: Vec<StoredBreakpoint> = Vec::new();
                breakpoints.push(stored);
                let ghost n = self.files@.len() as int;
                self.files.push(SourceFile { path: file, breakpoints });
                assert(self@.files[n].breakpoints =~= seq![bp]);
            },
            None => {
                self.functions.push(stored);
            },
        }
        assert(self@ =~~= old(self)@.with_breakpoint(location, condition, hit_count));
        id
    }

    /// The requests for the enabled breakpoints of a file.
    pub fn line_requests(&self, file: &SourcePath) -> (requests: Vec<SourceBreakpoint>)
        requires
            self.wf(),
        ensures
            crate::protocol::source_views(requests@) == line_requests(
                self@.breakpoints_of(file.key@),
            ),
    {
        let mut requests: Vec<SourceBreakpoint> = Vec::new();
        if let Some(place) = self.find_file(file) {
            let bps = &self.files[place].breakpoints;
            let mut i: usize = 0;
            assert(bps@.take(0) =~= Seq::<StoredBreakpoint>::empty());
            proof {
                reveal(Seq::filter);
            }
            while i < bps.len()
                invariant
                    i <= bps@.len(),
                    crate::protocol::source_views(requests@) =~= line_requests(
                        bps@.take(i as int),
                    ),
                decreases bps@.len() - i,
            {
                let bp = &bps[i];
                proof {
                    assert(bps@.take(i + 1) =~= bps@.take(i as int).push(*bp));
                    lemma_requests_push(bps@.take(i as int), *bp);
                }
                if bp.enabled {
                    requests.push(
                        SourceBreakpoint {
                            line: match &bp.location {
                                BreakpointLocation::Line { line, .. } => *line,
                                BreakpointLocation::Function { .. } => 0,
                            },
                            column: None,
                            condition: bp.condition.clone(),
                            hit_condition: hit_condition_text(bp.hit_count),
                            log_message: None,
                        },
                    );
                }
                i = i + 1;
            }
            assert(bps@.take(i as int) =~= bps@);
        } else {
            proof {
                reveal(Seq::filter);
            }
        }
        assert(crate::protocol::source_views(requests@) =~= line_requests(
            self@.breakpoints_of(file.key@),
        ));
        requests
    }

    /// The requests for the enabled function breakpoints.
    pub fn function_requests(&self) -> (requests: Vec<FunctionBreakpoint>)
        ensures
            crate::protocol::function_views(requests@) == function_requests(self@.functions),
    {
        let mut requests: Vec<FunctionBreakpoint> = Vec::new();
        let bps = &self.functions;
        let mut i: usize = 0;
        proof {
            reveal(Seq::filter);
            assert(bps@.take(0) =~= Seq::<StoredBreakpoint>::empty());
        }
        while i < bps.len()
            invariant
                i <= bps@.len(),
                crate::protocol::function_views(requests@) =~= function_requests(
                    bps@.take(i as int),
                ),
            decreases bps@.len() - i,
        {
            let bp = &bps[i];
            proof {
                assert(bps@.take(i + 1) =~= bps@.take(i as int).push(*bp));
                lemma_requests_push(bps@.take(i as int), *bp);
            }
            if bp.enabled {
                requests.push(
                    FunctionBreakpoint {
                        name: match &bp.location {
                            BreakpointLocation::Function { name } => name.clone(),
                            BreakpointLocation::Line { .. } => String::new(),
                        },
                        condition: bp.condition.clone(),
                        hit_condition: hit_condition_text(bp.hit_count),
                    },
                );
            }
            i = i + 1;
        }
        assert(bps@.take(i as int) =~= bps@);
        requests
    }

    /// Takes the adapter's answer to a request for a file's breakpoints.
    pub fn take_line_answer(&mut self, file: &SourcePath, reports: &Vec<Breakpoint>)
        requires
            old(self).wf(),
        ensures
            final(self).wf(),
            final(self)@ == old(self)@.with_line_answer(file.key@, reports@),
    {
        if let Some(place) = self.find_file(file) {
            proof {
                lemma_with_file_wf(
                    self@,
                    place as int,
                    confirmed_asked(self@.files[place as int].breakpoints, reports@),
                );
            }
            confirm_asked(&mut self.files[place].breakpoints, reports);
            assert(self@ =~~= old(self)@.with_line_answer(file.key@, reports@));
        }
    }

    /// Takes the adapter's answer to a request for the function breakpoints.
    pub fn take_function_answer(&mut self, reports: &Vec<Breakpoint>)
        requires
            old(self).wf(),
        ensures
            final(self).wf(),
            final(self)@ == old(self)@.with_function_answer(reports@),
    {
        confirm_by_place(&mut self.functions, reports);
        assert(self@.files =~= old(self)@.files);
    }

    /// Takes a report on a line of a file, which the adapter made of its own accord.
    pub fn take_report(&mut self, file: &SourcePath, line: u32, report: &Breakpoint)
        requires
            old(self).wf(),
        ensures
            final(self).wf(),
            final(self)@ == old(self)@.with_report(file.key@, line, *report),
    {
        if let Some(place) = self.find_file(file) {
            let ghost bps = self@.files[place as int].breakpoints;
            let mut i: usize = 0;
            while i < self.files[place].breakpoints.len()
                invariant
                    *self == *old(self),
                    self.wf(),
                    place < self.files@.len(),
                    self@.has_file(file.key@),
                    self@.place_of(file.key@) == place,
                    bps == self@.files[place as int].breakpoints,
                    i <= bps.len(),
                    forall|k: int| 0 <= k < i ==> !sits_at(#[trigger] bps[k], line),
                decreases bps.len() - i,
            {
                let hit = match &self.files[place].breakpoints[i].location {
                    BreakpointLocation::Line { line: wanted, .. } => *wanted == line
                        || self.files[place].breakpoints[i].actual_line == Some(line),
                    BreakpointLocation::Function { .. } => false,
                };
                if hit {
                    proof {
                        lemma_first_at(bps, line, i as int);
                        lemma_with_file_wf(self@, place as int, reported(bps, line, *report));
                    }
                    confirm(&mut self.files[place].breakpoints[i], report);
                    assert(self@ =~~= old(self)@.with_report(file.key@, line, *report));
                    return ;
                }
                i = i + 1;
            }
            proof {
                lemma_first_at(bps, line, i as int);
                assert(self@ =~~= old(self)@.with_report(file.key@, line, *report));
            }
        }
    }

    /// The file and the place in it of the line breakpoint `id`.
    fn locate(&self, id: u32) -> (place: Option<(usize, usize)>)
        ensures
            match place {
                Some((i, j)) => i < self@.files.len() && j < self@.files[i as int].breakpoints.len()
                    && self@.files[i as int].breakpoints[j as int].id == id && self@.file_has(
                    i as int,
                    id,
                ),
                None => !self@.has_line(id),
            },
    {
        let mut i: usize = 0;
        while i < self.files.len()
            invariant
                i <= self.files@.len(),
                forall|k: int| 0 <= k < i ==> !(#[trigger] self@.file_has(k, id)),
            decreases self.files@.len() - i,
        {
            assert(self@.files[i as int] == self.files@[i as int]@);
            match position(&self.files[i].breakpoints, id) {
                Some(j) => {
                    assert(self@.files[i as int].breakpoints[j as int].id == id);
                    return Some((i, j));
                },
                None => {},
            }
            i = i + 1;
        }
        None
    }

    /// Switches the breakpoint `id` on or off. Returns the file whose breakpoints the adapter has
    /// to be sent again, or `None` where it is the function breakpoints.
    pub fn set_enabled(&mut self, id: u32, enabled: bool) -> (result: Result<
        Option<SourcePath>,
        Error,
    >)
        requires
            old(self).wf(),
        ensures
            final(self).wf(),
            match result {
                Ok(file) => old(self)@.has(id) && file == old(self)@.file_of(id) && final(self)@
                    == old(self)@.with_switched(id, enabled),
                Err(error) => !old(self)@.has(id) && error@
                    == (crate::error::ErrorView::BreakpointNotFound { id }) && final(self)@ == old(
                    self,
                )@,
            },
    {
        proof {
            lemma_with_switched_wf(self@, id, enabled);
        }
        match self.locate(id) {
            Some((i, j)) => {
                proof {
                    lemma_file_of(self@, i as int, id);
                }
                self.files[i].breakpoints[j].enabled = enabled;
                assert(self@ =~~= old(self)@.with_switched(id, enabled));
                Ok(Some(self.files[i].path.clone()))
            },
            None => match position(&self.functions, id) {
                Some(j) => {
                    assert(self@.functions[j as int].id == id);
                    self.functions[j].enabled = enabled;
                    assert(self@.files =~= old(self)@.files);
                    assert forall|i: int|
                        0 <= i < self@.files.len() implies #[trigger] self@.files[i] == old(
                        self,
                    )@.with_switched(id, enabled).files[i] by {
                        assert(!old(self)@.file_has(i, id));
                        assert(self@.files[i].breakpoints =~= switched(
                            self@.files[i].breakpoints,
                            id,
                            enabled,
                        ));
                    }
                    assert(self@ =~~= old(self)@.with_switched(id, enabled));
                    Ok(None)
                },
                None => Err(Error::BreakpointNotFound { id }),
            },
        }
    }

    /// Removes the breakpoint `id`. Returns the file whose breakpoints the adapter has to be sent
    /// again, or `None` where it is the function breakpoints.
    pub fn remove(&mut self, id: u32) -> (result: Result<Option<SourcePath>, Error>)
        requires
            old(self).wf(),
        ensures
            final(self).wf(),
            match result {
                Ok(file) => old(self)@.has(id) && file == old(self)@.file_of(id) && final(self)@
                    == old(self)@.without(id),
                Err(error) => !old(self)@.has(id) && error@
                    == (crate::error::ErrorView::BreakpointNotFound { id }) && final(self)@ == old(
                    self,
                )@,
            },
    {
        proof {
            lemma_without_wf(self@, id);
        }
        match self.locate(id) {
            Some((i, j)) => {
                proof {
                    lemma_file_of(self@, i as int, id);
                    lemma_without_line(self@, i as int, j as int);
                }
                self.files[i].breakpoints.remove(j);
                assert(self@ =~~= old(self)@.without(id));
                Ok(Some(self.files[i].path.clone()))
            },
            None => match position(&self.functions, id) {
                Some(j) => {
                    proof {
                        assert(self@.functions[j as int].id == id);
                        lemma_without_function(self@, j as int);
                    }
                    self.functions.remove(j);
                    assert(self@ =~~= old(self)@.without(id));
                    Ok(None)
                },
                None => Err(Error::BreakpointNotFound { id }),
            },
        }
    }

    /// The files that have an entry.
    pub fn files(&self) -> (files: Vec<SourcePath>)
        ensures
            files@ == self@.files.map_values(|file: FileView| file.path),
    {
        let mut files: Vec<SourcePath> = Vec::new();
        let mut i: usize = 0;
        while i < self.files.len()
            invariant
                i <= self.files@.len(),
                files@.len() == i,
                forall|k: int| 0 <= k < i ==> files@[k] == self.files@[k].path,
            decreases self.files@.len() - i,
        {
            files.push(self.files[i].path.clone());
            i = i + 1;
        }
        assert(files@ =~= self@.files.map_values(|file: FileView| file.path));
        files
    }

    /// Forgets the line breakpoints.
    pub fn clear_lines(&mut self)
        requires
            old(self).wf(),
        ensures
            final(self).wf(),
            final(self)@ == (TableView { files: Seq::empty(), ..old(self)@ }),
    {
        self.files.clear();
        assert(self@.files =~= Seq::<FileView>::empty());
    }

    /// Forgets the function breakpoints.
    pub fn clear_functions(&mut self)
        requires
            old(self).wf(),
        ensures
            final(self).wf(),
            final(self)@ == (TableView { functions: Seq::empty(), ..old(self)@ }),
    {
        self.functions.clear();
        assert(self@.files =~= old(self)@.files);
    }

    /// Shows all breakpoints: those on lines, then those on functions.
    pub fn list(&self) -> (infos: Vec<BreakpointInfo>)
        ensures
            infos@ == self@.infos(),
    {
        let mut infos: Vec<BreakpointInfo> = Vec::new();
        let mut i: usize = 0;
        assert(self@.files.take(0) =~= Seq::<FileView>::empty());
        while i < self.files.len()
            invariant
                i <= self.files@.len(),
                infos@ == files_infos(self@.files.take(i as int)),
            decreases self.files@.len() - i,
        {
            let file = &self.files[i];
            let ghost before = infos@;
            let mut j: usize = 0;
            while j < file.breakpoints.len()
                invariant
                    j <= file.breakpoints@.len(),
                    infos@ =~= before + file_infos(file@).take(j as int),
                decreases file.breakpoints@.len() - j,
            {
                infos.push(show_line(&file.path, &file.breakpoints[j]));
                j = j + 1;
            }
            proof {
                let front = self@.files.take(i + 1);
                assert(front.drop_last() =~= self@.files.take(i as int));
                assert(front.last() == file@);
                assert(file_infos(file@).take(j as int) =~= file_infos(file@));
            }
            i = i + 1;
        }
        assert(self@.files.take(i as int) =~= self@.files);
        let ghost shown = self@.functions.map_values(|bp: StoredBreakpoint| function_info(bp));
        let mut j: usize = 0;
        while j < self.functions.len()
            invariant
                j <= self.functions@.len(),
                shown == self@.functions.map_values(|bp: StoredBreakpoint| function_info(bp)),
                infos@ =~= files_infos(self@.files) + shown.take(j as int),
            decreases self.functions@.len() - j,
        {
            infos.push(show_function(&self.functions[j]));
            j = j + 1;
        }
        assert(shown.take(j as int) =~= shown);
        infos
    }

    /// Shows the breakpoint `id`.
    pub fn info(&self, id: u32) -> (result: Result<BreakpointInfo, Error>)
        requires
            self.wf(),
        ensures
            crate::error::result_view(result) == self@.lookup(id),
    {
        match self.locate(id) {
            Some((i, j)) => {
                proof {
                    lemma_shows_line(self@, i as int, j as int);
                    lemma_lookup(
                        self@,
                        line_info(
                            self@.files[i as int].path,
                            self@.files[i as int].breakpoints[j as int],
                        ),
                        id,
                    );
                }
                Ok(show_line(&self.files[i].path, &self.files[i].breakpoints[j]))
            },
            None => match position(&self.functions, id) {
                Some(j) => {
                    proof {
                        lemma_shows_function(self@, j as int);
                        lemma_lookup(self@, function_info(self@.functions[j as int]), id);
                    }
                    Ok(show_function(&self.functions[j]))
                },
                None => Err(Error::BreakpointNotFound { id }),
            },
        }
    }
}

} // verus!
