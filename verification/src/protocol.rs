//! What a debug adapter says and what it is asked: the parts of the Debug Adapter Protocol that
//! a session reads or writes.

use vstd::prelude::*;

verus! {

/// What the adapter announced that it can do.
#[derive(Debug, Clone, Copy, PartialEq, Eq, Structural)]
pub struct Capabilities {
    pub supports_function_breakpoints: bool,
    pub supports_conditional_breakpoints: bool,
    pub supports_hit_conditional_breakpoints: bool,
    pub supports_restart_request: bool,
}

/// A thread of the debuggee.
#[derive(Debug)]
pub struct Thread {
    pub id: i64,
    pub name: String,
}

impl Clone for Thread {
    fn clone(&self) -> (copy: Self)
        ensures
            copy == *self,
    {
        Thread { id: self.id, name: self.name.clone() }
    }
}

/// A source file as the adapter names it.
#[derive(Debug)]
pub struct Source {
    pub name: Option<String>,
    pub path: Option<String>,
}

impl Clone for Source {
    fn clone(&self) -> (copy: Self)
        ensures
            copy == *self,
    {
        Source { name: self.name.clone(), path: self.path.clone() }
    }
}

/// One frame of a call stack.
#[derive(Debug)]
pub struct StackFrame {
    pub id: i64,
    pub name: String,
    pub source: Option<Source>,
    pub line: u32,
    pub column: u32,
}

impl Clone for StackFrame {
    fn clone(&self) -> (copy: Self)
        ensures
            copy == *self,
    {
        StackFrame {
            id: self.id,
            name: self.name.clone(),
            source: self.source.clone(),
            line: self.line,
            column: self.column,
        }
    }
}

/// A group of variables of a frame.
#[derive(Debug)]
pub struct Scope {
    pub name: String,
    pub variables_reference: i64,
    pub expensive: bool,
}

/// A variable of a scope.
#[derive(Debug)]
pub struct Variable {
    pub name: String,
    pub value: String,
    pub kind: Option<String>,
    pub variables_reference: i64,
}

/// What the adapter made of an expression.
#[derive(Debug)]
pub struct EvaluateResponseBody {
    pub result: String,
    pub kind: Option<String>,
    pub variables_reference: i64,
}

/// A breakpoint as the adapter reports it.
#[derive(Debug)]
pub struct Breakpoint {
    pub id: Option<i64>,
    pub verified: bool,
    pub message: Option<String>,
    pub source: Option<Source>,
    pub line: Option<u32>,
}

/// A line breakpoint as the adapter is asked for it.
#[derive(Debug)]
pub struct SourceBreakpoint {
    pub line: u32,
    pub column: Option<u32>,
    pub condition: Option<String>,
    pub hit_condition: Option<String>,
    pub log_message: Option<String>,
}

/// The contents of a [`SourceBreakpoint`].
pub struct SourceBreakpointView {
    pub line: u32,
    pub column: Option<u32>,
    pub condition: Option<Seq<char>>,
    pub hit_condition: Option<Seq<char>>,
    pub log_message: Option<Seq<char>>,
}

impl View for SourceBreakpoint {
    type V = SourceBreakpointView;

    open spec fn view(&self) -> SourceBreakpointView {
        SourceBreakpointView {
            line: self.line,
            column: self.column,
            condition: crate::text::opt_text(self.condition),
            hit_condition: crate::text::opt_text(self.hit_condition),
            log_message: crate::text::opt_text(self.log_message),
        }
    }
}

/// A function breakpoint as the adapter is asked for it.
#[derive(Debug)]
pub struct FunctionBreakpoint {
    pub name: String,
    pub condition: Option<String>,
    pub hit_condition: Option<String>,
}

/// The contents of a [`FunctionBreakpoint`].
pub struct FunctionBreakpointView {
    pub name: Seq<char>,
    pub condition: Option<Seq<char>>,
    pub hit_condition: Option<Seq<char>>,
}

impl View for FunctionBreakpoint {
    type V = FunctionBreakpointView;

    open spec fn view(&self) -> FunctionBreakpointView {
        FunctionBreakpointView {
            name: self.name@,
            condition: crate::text::opt_text(self.condition),
            hit_condition: crate::text::opt_text(self.hit_condition),
        }
    }
}

/// The contents of line breakpoints.
pub open spec fn source_views(requests: Seq<SourceBreakpoint>) -> Seq<SourceBreakpointView> {
    requests.map_values(|request: SourceBreakpoint| request@)
}

/// The contents of function breakpoints.
pub open spec fn function_views(requests: Seq<FunctionBreakpoint>) -> Seq<FunctionBreakpointView> {
    requests.map_values(|request: FunctionBreakpoint| request@)
}

/// The debuggee stopped.
#[derive(Debug)]
pub struct StoppedEventBody {
    pub reason: String,
    pub thread_id: Option<i64>,
    pub hit_breakpoint_ids: Vec<u32>,
}

/// The debuggee exited.
#[derive(Debug)]
pub struct ExitedEventBody {
    pub exit_code: i32,
}

/// The adapter ended the session.
#[derive(Debug)]
pub struct TerminatedEventBody {
    pub restart: bool,
}

/// The debuggee or the adapter wrote something.
#[derive(Debug)]
pub struct OutputEventBody {
    pub category: Option<String>,
    pub output: String,
}

/// A thread started or exited.
#[derive(Debug)]
pub struct ThreadEventBody {
    pub reason: String,
    pub thread_id: i64,
}

/// What an adapter reports of its own accord.
#[derive(Debug)]
pub enum Event {
    Initialized,
    Stopped(StoppedEventBody),
    Continued { thread_id: i64, all_threads_continued: bool },
    Exited(ExitedEventBody),
    Terminated(TerminatedEventBody),
    Thread(ThreadEventBody),
    Output(OutputEventBody),
    Breakpoint { reason: String, breakpoint: Breakpoint },
    Other { event: String },
}

impl Event {
    /// Whether the debuggee has stopped for now or for good.
    pub open spec fn ends_wait(self) -> bool {
        self is Stopped || self is Exited || self is Terminated
    }

    /// Whether the debuggee has stopped for now or for good.
    pub fn is_stop(&self) -> (stop: bool)
        ensures
            stop == self.ends_wait(),
    {
        match self {
            Event::Stopped(_) | Event::Exited(_) | Event::Terminated(_) => true,
            _ => false,
        }
    }
}

} // verus!
