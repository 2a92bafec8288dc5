//! How the debuggee is let run, paused, ended, and which thread that is about.

use crate::error::ErrorView;
use crate::protocol::Thread;
use crate::state::{SessionState, SessionView};
use crate::step::{
    AfterControl, AfterFramesView, AfterThreadsView, Control, FrameUseView, Motion, OutcomeView,
    StepView, ThreadUseView,
};
use vstd::prelude::*;

verus! {

/// Whether requests are about the thread `id`: it is selected; or none is and it is the one that
/// stopped; or neither is known and it is the first of the list.
pub open spec fn is_about(session: SessionView, id: i64) -> bool {
    match (session.selected_thread, session.stopped_thread) {
        (Some(selected), _) => id == selected,
        (None, Some(stopped)) => id == stopped,
        (None, None) => session.threads.len() > 0 && id == session.threads[0].id,
    }
}

/// Whether no thread is known without asking.
pub open spec fn knows_no_thread(session: SessionView) -> bool {
    session.selected_thread is None && session.stopped_thread is None && session.threads.len() == 0
}

/// Why a request that needs a stopped debuggee is refused.
pub open spec fn refusal(session: SessionView, error: ErrorView) -> bool {
    match session.state {
        SessionState::Stopped => false,
        SessionState::Exited => match session.exit_code {
            Some(code) => error == ErrorView::ProgramExited(code),
            None => error == ErrorView::ProgramExited(0),
        },
        other => error == (ErrorView::InvalidState { action: "inspect"@, state: other.name() }),
    }
}

/// A debuggee that has stopped is let run once the events that have arrived are handled. One that
/// runs is not told to continue, and nothing else can be let run.
pub proof fn law_only_a_stopped_debuggee_is_let_run(session: SessionView, motion: Motion)
    ensures
        session.state is Stopped ==> session.resume(motion) == StepView::Drain(motion),
        session.state is Running && motion is Continue ==> session.resume(motion)
            == StepView::Done(Ok(OutcomeView::Unit)),
        !(session.state is Stopped) && !(session.state is Running && motion is Continue)
            ==> match session.resume(motion) {
            StepView::Done(Err(error)) => refusal(session, error),
            _ => false,
        },
{
}

/// To let the debuggee run is to send the request for that very motion, and to pause it is to send
/// the request to pause, each for the thread that requests are about.
pub proof fn law_motion_reaches_the_thread(session: SessionView, motion: Motion, id: i64)
    requires
        is_about(session, id),
    ensures
        session.with_thread(ThreadUseView::Resume(motion)) == (StepView::Control {
            request: match motion {
                Motion::Continue => Control::Continue { thread_id: id },
                Motion::Next => Control::Next { thread_id: id },
                Motion::StepIn => Control::StepIn { thread_id: id },
                Motion::StepOut => Control::StepOut { thread_id: id },
            },
            after: AfterControl::Resumed(motion),
        }),
        session.state is Running ==> session.pause() == (StepView::Control {
            request: Control::Pause { thread_id: id },
            after: AfterControl::Paused,
        }),
{
}

/// Frames are asked of the thread that requests are about: as many as wanted, and one where only
/// the innermost is.
pub proof fn law_frames_are_asked_of_the_thread(
    session: SessionView,
    id: i64,
    levels: i64,
    index: usize,
    purpose: FrameUseView,
)
    requires
        is_about(session, id),
    ensures
        session.with_thread(ThreadUseView::StackTrace { levels }) == (StepView::StackTrace {
            thread_id: id,
            levels,
            after: AfterFramesView::StackTrace,
        }),
        session.with_thread(ThreadUseView::SelectFrame { index, levels }) == (
        StepView::StackTrace {
            thread_id: id,
            levels,
            after: AfterFramesView::SelectFrame { index },
        }),
        session.with_thread(ThreadUseView::TopFrame(purpose)) == (StepView::StackTrace {
            thread_id: id,
            levels: 1,
            after: AfterFramesView::TopFrame(purpose),
        }),
{
}

/// Where no thread is known the threads are asked for. The request then goes on as if the first of
/// them had been known all along, and fails where there is none.
pub proof fn law_unknown_thread_is_asked_for(
    session: SessionView,
    purpose: ThreadUseView,
    threads: Seq<Thread>,
)
    requires
        knows_no_thread(session),
    ensures
        session.with_thread(purpose) == StepView::Threads(AfterThreadsView::Use(purpose)),
        ({
            let (after, step) = session.threads_received(
                AfterThreadsView::Use(purpose),
                Ok(threads),
            );
            &&& after == (SessionView { threads, ..session })
            &&& if threads.len() > 0 {
                is_about(after, threads[0].id) && step == after.with_thread(purpose)
            } else {
                step == StepView::Done(Err(ErrorView::Internal("No threads available"@)))
            }
        }),
{
}

/// Asking for the threads gives what the adapter says, and remembers it.
pub proof fn law_threads_are_remembered(session: SessionView, threads: Seq<Thread>)
    ensures
        session.threads_received(AfterThreadsView::Refresh, Ok(threads)) == (
            SessionView { threads, ..session },
            StepView::Done(Ok(OutcomeView::Threads(threads))),
        ),
{
}

/// A thread of the list can be selected. Requests are then about it, from the top of its stack,
/// and nothing else changes.
pub proof fn law_thread_of_the_list_is_selected(session: SessionView, k: int)
    requires
        0 <= k < session.threads.len(),
    ensures
        ({
            let id = session.threads[k].id;
            let (after, result) = session.select_thread(id);
            &&& result is Ok
            &&& is_about(after, id)
            &&& crate::laws::events::fresh_stack(after)
            &&& after == (SessionView {
                selected_thread: Some(id),
                current_frame_index: 0,
                current_frame: None,
                cached_frames: Seq::empty(),
                ..session
            })
        }),
{
    assert(session.threads[k].id == session.threads[k].id);
}

/// A thread that is not in the list is refused with a message that names it, and nothing changes.
pub proof fn law_thread_outside_the_list_is_refused(session: SessionView, id: i64)
    requires
        forall|k: int| 0 <= k < session.threads.len() ==> (#[trigger] session.threads[k]).id != id,
    ensures
        ({
            let (after, result) = session.select_thread(id);
            &&& after == session
            &&& match result {
                Err(ErrorView::Internal(message)) => message == "Thread "@
                    + crate::text::signed_decimal(id as int)
                    + " not found. Use 'threads' command to see available threads."@,
                _ => false,
            }
        }),
{
}

/// Where the adapter lets the debuggee run on, it runs. A continue also ends the stop, while a
/// step keeps the thread that it is for; nothing else changes.
pub proof fn law_acknowledged_motion(session: SessionView, motion: Motion)
    ensures
        ({
            let (after, step) = session.control_acknowledged(
                AfterControl::Resumed(motion),
                Ok(()),
            );
            &&& step == StepView::Done(Ok(OutcomeView::Unit))
            &&& after.state == SessionState::Running
            &&& after.stopped_thread == if motion is Continue {
                None
            } else {
                session.stopped_thread
            }
            &&& after.stopped_reason == if motion is Continue {
                None
            } else {
                session.stopped_reason
            }
            &&& after == (SessionView {
                state: after.state,
                stopped_thread: after.stopped_thread,
                stopped_reason: after.stopped_reason,
                ..session
            })
        }),
{
}

/// A pause, a detachment and a termination are done when the adapter acknowledges them; the
/// events that follow tell the rest.
pub proof fn law_acknowledged_endings(session: SessionView)
    ensures
        session.control_acknowledged(AfterControl::Paused, Ok(())) == (
            session,
            StepView::Done(Ok(OutcomeView::Unit)),
        ),
        session.control_acknowledged(AfterControl::Detached, Ok(())) == (
            session,
            StepView::Done(Ok(OutcomeView::Unit)),
        ),
        session.control_acknowledged(AfterControl::Terminated, Ok(())) == (
            session,
            StepView::Done(Ok(OutcomeView::Unit)),
        ),
        session.control_acknowledged(AfterControl::Disconnected, Ok(())) == (
            session,
            StepView::Control { request: Control::Terminate, after: AfterControl::Terminated },
        ),
{
}

/// A session that ends changes in nothing but its state, from which it can neither be inspected
/// nor paused.
pub proof fn law_ending_session(session: SessionView, stop: bool)
    ensures
        ({
            let after = session.end(stop).0;
            &&& after == (SessionView { state: SessionState::Terminating, ..session })
            &&& after.pause() == StepView::Done(
                Err(ErrorView::InvalidState { action: "pause"@, state: after.state.name() }),
            )
            &&& after.resume(Motion::Next) is Done
        }),
{
}

/// An acknowledged restart runs from the start: nothing is left of the stop or of the stack, all
/// else stays, and the debuggee is given time to settle.
pub proof fn law_acknowledged_restart(session: SessionView)
    ensures
        session.control_acknowledged(AfterControl::Restarted, Ok(())) == (
            SessionView {
                state: SessionState::Running,
                stopped_thread: None,
                stopped_reason: None,
                current_frame_index: 0,
                current_frame: None,
                cached_frames: Seq::empty(),
                ..session
            },
            StepView::Settle,
        ),
{
}

/// The names of the states differ.
pub proof fn law_states_have_names_of_their_own(a: SessionState, b: SessionState)
    ensures
        a.name() == b.name() ==> a == b,
{
    reveal_strlit("idle");
    reveal_strlit("initializing");
    reveal_strlit("configuring");
    reveal_strlit("running");
    reveal_strlit("stopped");
    reveal_strlit("exited");
    reveal_strlit("terminating");
    let (x, y) = (a.name(), b.name());
    if x == y {
        assert(x.len() == y.len());
        assert(x[0] == y[0]);
    }
}

} // verus!
