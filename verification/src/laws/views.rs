//! That the contents by which steps and requests are spoken of are what they hold.

use crate::error::{Error, ErrorView};
use crate::output::OutputEvent;
use crate::protocol::{FunctionBreakpoint, SourceBreakpoint};
use crate::setup::{LaunchArguments, OpeningStep, OpeningStepView};
use crate::step::{
    AfterBreakpoints, AfterBreakpointsView, AfterFrames, AfterFramesView, AfterThreads,
    AfterThreadsView, FrameUse, FrameUseView, Outcome, OutcomeView, Step, StepView, ThreadUse,
    ThreadUseView,
};
use vstd::prelude::*;

verus! {

/// A breakpoint that is asked for holds the line or the name, the condition and the hit condition
/// by which it is spoken of.
pub proof fn law_requests_hold_their_contents(
    line: SourceBreakpoint,
    function: FunctionBreakpoint,
)
    ensures
        line@.line == line.line,
        line@.column == line.column,
        crate::laws::requests::same_text(line.condition, line@.condition),
        crate::laws::requests::same_text(line.hit_condition, line@.hit_condition),
        crate::laws::requests::same_text(line.log_message, line@.log_message),
        function@.name == function.name@,
        crate::laws::requests::same_text(function.condition, function@.condition),
        crate::laws::requests::same_text(function.hit_condition, function@.hit_condition),
{
}

/// A step that is to be performed holds what is said of it.
pub proof fn law_steps_hold_their_contents(step: Step)
    ensures
        match (step, step@) {
            (Step::Done(Ok(a)), StepView::Done(Ok(b))) => a@ == b,
            (Step::Done(Err(a)), StepView::Done(Err(b))) => a@ == b,
            (Step::Drain(a), StepView::Drain(b)) => a == b,
            (
                Step::SetBreakpoints { file, breakpoints, after },
                StepView::SetBreakpoints { file: f, breakpoints: sent, after: a },
            ) => {
                &&& f == file
                &&& sent.len() == breakpoints@.len()
                &&& forall|k: int| 0 <= k < sent.len() ==> #[trigger] sent[k] == breakpoints@[k]@
                &&& a == after@
            },
            (
                Step::SetFunctionBreakpoints { breakpoints, after },
                StepView::SetFunctionBreakpoints { breakpoints: sent, after: a },
            ) => {
                &&& sent.len() == breakpoints@.len()
                &&& forall|k: int| 0 <= k < sent.len() ==> #[trigger] sent[k] == breakpoints@[k]@
                &&& a == after@
            },
            (Step::Threads(a), StepView::Threads(b)) => a@ == b,
            (
                Step::StackTrace { thread_id, levels, after },
                StepView::StackTrace { thread_id: t, levels: l, after: a },
            ) => t == thread_id && l == levels && a == after@,
            (
                Step::Scopes { frame_id, locals },
                StepView::Scopes { frame_id: f, locals: l },
            ) => f == frame_id && l == locals,
            (Step::Variables { reference }, StepView::Variables { reference: r }) => r == reference,
            (
                Step::Evaluate { expression, frame_id, context },
                StepView::Evaluate { expression: e, frame_id: f, context: c },
            ) => e == expression@ && f == frame_id && c == context@,
            (Step::Control { request, after }, StepView::Control { request: r, after: a }) => r
                == request && a == after,
            (Step::Settle, StepView::Settle) => true,
            _ => false,
        },
{
}

/// What a step goes on with holds what is said of it.
pub proof fn law_continuations_hold_their_contents(
    breakpoints: AfterBreakpoints,
    threads: AfterThreads,
    frames: AfterFrames,
    thread: ThreadUse,
    frame: FrameUse,
)
    ensures
        match (breakpoints, breakpoints@) {
            (
                AfterBreakpoints::Added { id, file },
                AfterBreakpointsView::Added { id: i, file: f },
            ) => i == id && f == file,
            (
                AfterBreakpoints::Switched { file },
                AfterBreakpointsView::Switched { file: f },
            ) => f == file,
            (AfterBreakpoints::Removed, AfterBreakpointsView::Removed) => true,
            (
                AfterBreakpoints::ClearedFile { rest },
                AfterBreakpointsView::ClearedFile { rest: r },
            ) => r == rest@,
            (
                AfterBreakpoints::ClearedFunctions,
                AfterBreakpointsView::ClearedFunctions,
            ) => true,
            _ => false,
        },
        match (threads, threads@) {
            (AfterThreads::Refresh, AfterThreadsView::Refresh) => true,
            (AfterThreads::Use(a), AfterThreadsView::Use(b)) => b == a@,
            _ => false,
        },
        match (frames, frames@) {
            (AfterFrames::StackTrace, AfterFramesView::StackTrace) => true,
            (
                AfterFrames::SelectFrame { index },
                AfterFramesView::SelectFrame { index: i },
            ) => i == index,
            (AfterFrames::TopFrame(a), AfterFramesView::TopFrame(b)) => b == a@,
            _ => false,
        },
        match (thread, thread@) {
            (ThreadUse::Resume(a), ThreadUseView::Resume(b)) => b == a,
            (ThreadUse::Pause, ThreadUseView::Pause) => true,
            (ThreadUse::StackTrace { levels }, ThreadUseView::StackTrace { levels: l }) => l
                == levels,
            (
                ThreadUse::SelectFrame { index, levels },
                ThreadUseView::SelectFrame { index: i, levels: l },
            ) => i == index && l == levels,
            (ThreadUse::TopFrame(a), ThreadUseView::TopFrame(b)) => b == a@,
            _ => false,
        },
        match (frame, frame@) {
            (FrameUse::Scopes { locals }, FrameUseView::Scopes { locals: l }) => l == locals,
            (
                FrameUse::Evaluate { expression, context },
                FrameUseView::Evaluate { expression: e, context: c },
            ) => e == expression@ && c == context@,
            _ => false,
        },
{
}

/// What a request of the user comes to is handed over whole.
pub proof fn law_outcomes_hold_their_contents(outcome: Outcome)
    ensures
        match (outcome, outcome@) {
            (Outcome::Unit, OutcomeView::Unit) => true,
            (Outcome::Info(a), OutcomeView::Info(b)) => a == b,
            (Outcome::Frames(a), OutcomeView::Frames(b)) => a@ == b,
            (Outcome::Frame(a), OutcomeView::Frame(b)) => a == b,
            (Outcome::Threads(a), OutcomeView::Threads(b)) => a@ == b,
            (Outcome::Scopes(a), OutcomeView::Scopes(b)) => a@ == b,
            (Outcome::Variables(a), OutcomeView::Variables(b)) => a@ == b,
            (Outcome::Evaluation(a), OutcomeView::Evaluation(b)) => a == b,
            _ => false,
        },
{
}

/// An error says what is said of it.
pub proof fn law_errors_hold_their_contents(error: Error)
    ensures
        match (error, error@) {
            (
                Error::AdapterNotFound { name, searched },
                ErrorView::AdapterNotFound { name: n, searched: s },
            ) => n == name@ && s == searched@,
            (Error::AdapterCrashed, ErrorView::AdapterCrashed) => true,
            (Error::AwaitTimeout(a), ErrorView::AwaitTimeout(b)) => a == b,
            (Error::BreakpointNotFound { id }, ErrorView::BreakpointNotFound { id: i }) => i == id,
            (Error::FrameNotFound(a), ErrorView::FrameNotFound(b)) => a == b,
            (Error::ProgramExited(a), ErrorView::ProgramExited(b)) => a == b,
            (
                Error::InvalidState { action, state },
                ErrorView::InvalidState { action: a, state: s },
            ) => a == action@ && s == state@,
            (Error::Request(a), ErrorView::Request(b)) => a@ == b,
            (Error::Internal(a), ErrorView::Internal(b)) => a@ == b,
            _ => false,
        },
{
}

/// Output that is handed out holds its category, its text and its time.
pub proof fn law_output_holds_its_contents(event: OutputEvent)
    ensures
        event@.category == event.category@,
        event@.output == event.output@,
        event@.timestamp == event.timestamp,
{
}

/// The arguments of a launch hold what is said of them.
pub proof fn law_launch_arguments_hold_their_contents(arguments: LaunchArguments)
    ensures
        arguments@.program == arguments.program@,
        arguments@.args.len() == arguments.args@.len(),
        forall|k: int|
            0 <= k < arguments.args@.len() ==> #[trigger] arguments@.args[k] == arguments.args@[k]@,
        crate::laws::requests::same_text(arguments.cwd, arguments@.cwd),
        arguments@.stop_on_entry == arguments.stop_on_entry,
        crate::laws::requests::same_text(arguments.request, arguments@.request),
        crate::laws::requests::same_text(arguments.console, arguments@.console),
        crate::laws::requests::same_text(arguments.python, arguments@.python),
        arguments@.just_my_code == arguments.just_my_code,
        crate::laws::requests::same_text(arguments.mode, arguments@.mode),
        arguments@.stop_at_entry == arguments.stop_at_entry,
        arguments@.stop_at_beginning_of_main_subprogram
            == arguments.stop_at_beginning_of_main_subprogram,
        crate::laws::requests::same_text(arguments.type_attr, arguments@.type_attr),
        arguments@.source_maps == arguments.source_maps,
        arguments@.env == arguments.env,
        arguments@.init_commands == arguments.init_commands,
        arguments@.pre_run_commands == arguments.pre_run_commands,
        arguments@.out_files == arguments.out_files,
        crate::laws::requests::same_text(
            arguments.runtime_executable,
            arguments@.runtime_executable,
        ),
        arguments@.runtime_args == arguments.runtime_args,
        arguments@.skip_files == arguments.skip_files,
{
}

/// A step of opening a session holds what is said of it.
pub proof fn law_opening_steps_hold_their_contents(step: OpeningStep)
    ensures
        match (step, step@) {
            (OpeningStep::Failed(a), OpeningStepView::Failed(b)) => a@ == b,
            (OpeningStep::FindAdapter { next }, OpeningStepView::FindAdapter { next: n }) => n
                == next,
            (
                OpeningStep::Spawn { path, args, next },
                OpeningStepView::Spawn { path: p, args: a, next: n },
            ) => p == path@ && a == args@ && n == next,
            (
                OpeningStep::SpawnTcp { path, args, spawn_style, next },
                OpeningStepView::SpawnTcp { path: p, args: a, spawn_style: s, next: n },
            ) => p == path@ && a == args@ && s == spawn_style@ && n == next,
            (
                OpeningStep::Initialize { timeout_secs, next },
                OpeningStepView::Initialize { timeout_secs: t, next: n },
            ) => t == timeout_secs && n == next,
            (
                OpeningStep::Inspect { sibling, next },
                OpeningStepView::Inspect { sibling: s, next: n },
            ) => crate::laws::requests::same_text(sibling, s) && n == next,
            (
                OpeningStep::Launch { arguments, wait, next },
                OpeningStepView::Launch { arguments: a, wait: w, next: n },
            ) => a == arguments@ && w == wait && n == next,
            (
                OpeningStep::Attach { arguments, next },
                OpeningStepView::Attach { arguments: a, next: n },
            ) => a == arguments && n == next,
            (
                OpeningStep::WaitInitialized { timeout_secs, next },
                OpeningStepView::WaitInitialized { timeout_secs: t, next: n },
            ) => t == timeout_secs && n == next,
            (
                OpeningStep::SetBreakpoints { file, breakpoints, next },
                OpeningStepView::SetBreakpoints { file: f, breakpoints: sent, next: n },
            ) => {
                &&& f == file
                &&& sent.len() == breakpoints@.len()
                &&& forall|k: int| 0 <= k < sent.len() ==> #[trigger] sent[k] == breakpoints@[k]@
                &&& n == next@
            },
            (
                OpeningStep::SetFunctionBreakpoints { breakpoints, next },
                OpeningStepView::SetFunctionBreakpoints { breakpoints: sent, next: n },
            ) => {
                &&& sent.len() == breakpoints@.len()
                &&& forall|k: int| 0 <= k < sent.len() ==> #[trigger] sent[k] == breakpoints@[k]@
                &&& n == next@
            },
            (
                OpeningStep::ConfigurationDone { next },
                OpeningStepView::ConfigurationDone { next: n },
            ) => n == next,
            (OpeningStep::TakeEvents { next }, OpeningStepView::TakeEvents { next: n }) => n
                == next,
            (OpeningStep::Settle { next }, OpeningStepView::Settle { next: n }) => n == next@,
            _ => false,
        },
{
}

} // verus!
