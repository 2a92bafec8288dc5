//! What holds of requests, answers and events.

use crate::error::ErrorView;
use crate::output::OutputEventView;
use crate::protocol::{Breakpoint, Event, Scope, StackFrame, Thread};
use crate::state::SessionView;
use crate::step::{
    AfterBreakpointsView, AfterControl, AfterFramesView, AfterThreadsView, Control, FrameUseView,
    Motion, OutcomeView, Received, StepView, ThreadUseView,
};
use vstd::prelude::*;

verus! {

/// Handling events in two runs comes to the same as handling them in one: none is lost and none
/// is handled twice.
pub proof fn law_events_add_up(
    session: SessionView,
    first: Seq<Event>,
    second: Seq<Event>,
    first_times: Seq<std::time::Instant>,
    second_times: Seq<std::time::Instant>,
)
    requires
        first.len() == first_times.len(),
        second.len() == second_times.len(),
    ensures
        session.after_events(first + second, first_times + second_times) == session.after_events(
            first,
            first_times,
        ).after_events(second, second_times),
    decreases second.len(),
{
    if second.len() == 0 {
        assert(first + second =~= first);
        assert(first_times + second_times =~= first_times);
    } else {
        assert((first + second).drop_last() =~= first + second.drop_last());
        assert((first_times + second_times).drop_last() =~= first_times + second_times.drop_last());
        law_events_add_up(
            session,
            first,
            second.drop_last(),
            first_times,
            second_times.drop_last(),
        );
    }
}

/// Whether two runs of output say the same under the same categories, whenever it arrived.
pub open spec fn same_output(a: Seq<OutputEventView>, b: Seq<OutputEventView>) -> bool {
    &&& a.len() == b.len()
    &&& forall|i: int|
        0 <= i < a.len() ==> (#[trigger] a[i]).category == b[i].category && a[i].output
            == b[i].output
}

/// Whether two sessions differ in no more than the times at which output arrived.
pub open spec fn same_but_for_times(a: SessionView, b: SessionView) -> bool {
    &&& a == (SessionView { output: a.output, ..b })
    &&& a.output.max_events == b.output.max_events
    &&& a.output.max_bytes == b.output.max_bytes
    &&& same_output(a.output.events, b.output.events)
}

proof fn lemma_same_output_kept(
    a: Seq<OutputEventView>,
    b: Seq<OutputEventView>,
    bytes: int,
    count: int,
)
    requires
        same_output(a, b),
    ensures
        crate::output::total_bytes(a) == crate::output::total_bytes(b),
        same_output(
            crate::output::newest_within(a, bytes, count),
            crate::output::newest_within(b, bytes, count),
        ),
    decreases a.len(),
{
    if a.len() > 0 {
        let (c, d) = (a.drop_first(), b.drop_first());
        assert forall|i: int| 0 <= i < c.len() implies (#[trigger] c[i]).category == d[i].category
            && c[i].output == d[i].output by {
            assert(c[i] == a[i + 1]);
        }
        assert(a[0].output == b[0].output);
        lemma_same_output_kept(c, d, bytes, count);
    }
}

proof fn lemma_same_after_event(
    a: SessionView,
    b: SessionView,
    event: Event,
    at: std::time::Instant,
    bt: std::time::Instant,
)
    requires
        same_but_for_times(a, b),
    ensures
        same_but_for_times(a.after_event(event, at), b.after_event(event, bt)),
{
    if let Event::Output(body) = event {
        if a.output.max_events > 0 {
            let text = crate::text::fitting_prefix(body.output@, a.output.max_bytes as nat);
            lemma_same_output_kept(
                a.output.events,
                b.output.events,
                a.output.max_bytes - crate::text::byte_len(text),
                a.output.max_events - 1,
            );
        }
    }
}

proof fn lemma_same_after_events(
    session: SessionView,
    events: Seq<Event>,
    at: Seq<std::time::Instant>,
    bt: Seq<std::time::Instant>,
)
    requires
        at.len() == events.len(),
        bt.len() == events.len(),
    ensures
        same_but_for_times(session.after_events(events, at), session.after_events(events, bt)),
    decreases events.len(),
{
    if events.len() > 0 {
        let (front, a, b) = (events.drop_last(), at.drop_last(), bt.drop_last());
        lemma_same_after_events(session, front, a, b);
        lemma_same_after_event(
            session.after_events(front, a),
            session.after_events(front, b),
            events.last(),
            at.last(),
            bt.last(),
        );
    }
}

/// Draining events and processing them lead to the same session, but for the times at which output
/// arrived: whatever comes of the same events is the same.
pub proof fn law_draining_is_processing(
    session: SessionView,
    events: Seq<Event>,
    drained: SessionView,
    processed: SessionView,
)
    requires
        session.comes_to(events, drained),
        session.comes_to(events, processed),
    ensures
        same_but_for_times(drained, processed),
{
    let at = choose|times: Seq<std::time::Instant>|
        times.len() == events.len() && drained == #[trigger] session.after_events(events, times);
    let bt = choose|times: Seq<std::time::Instant>|
        times.len() == events.len() && processed == #[trigger] session.after_events(events, times);
    lemma_same_after_events(session, events, at, bt);
}

/// An event never changes what the session was opened with, nor which numbers breakpoints get;
/// the exit code changes only where the debuggee exits.
pub proof fn law_events_keep_the_setup(
    session: SessionView,
    event: Event,
    now: std::time::Instant,
)
    ensures
        ({
            let after = session.after_event(event, now);
            &&& after.capabilities == session.capabilities
            &&& after.program == session.program
            &&& after.args == session.args
            &&& after.adapter_name == session.adapter_name
            &&& after.launched == session.launched
            &&& after.request_timeout_secs == session.request_timeout_secs
            &&& after.breakpoints.next_id == session.breakpoints.next_id
            &&& after.output.max_events == session.output.max_events
            &&& after.output.max_bytes == session.output.max_bytes
            &&& !(event is Exited) ==> after.exit_code == session.exit_code
        }),
{
}

/// A stop puts the session at the top of the stack of the thread that stopped, whatever frame had
/// been selected.
pub proof fn law_stop_resets_frames(session: SessionView, event: Event, now: std::time::Instant)
    requires
        event is Stopped,
    ensures
        ({
            let after = session.after_event(event, now);
            &&& after.state is Stopped
            &&& after.not_stopped() is None
            &&& after.stopped_thread == event->Stopped_0.thread_id
            &&& after.stopped_reason == Some(event->Stopped_0.reason@)
            &&& after.current_frame_index == 0
            &&& after.current_frame is None
            &&& after.cached_frames.len() == 0
        }),
{
}

/// What is waited for: the first event that ends the wait, or the end of the connection or of the
/// time before it.
pub open spec fn wait_result(timeout_secs: u64, rounds: Seq<Received>) -> Option<
    Result<Event, ErrorView>,
>
    decreases rounds.len(),
{
    if rounds.len() == 0 {
        None
    } else {
        match crate::state::stop_verdict(timeout_secs, rounds[0]) {
            Some(result) => Some(result),
            None => wait_result(timeout_secs, rounds.drop_first()),
        }
    }
}

/// Whether a round is passed over: an event arrived, and the debuggee runs on.
pub open spec fn passes(round: Received) -> bool {
    match round {
        Received::Event(event) => !(event is Stopped || event is Exited || event is Terminated),
        _ => false,
    }
}

/// Whether round `n` is the first that is not passed over.
pub open spec fn decides(rounds: Seq<Received>, n: int) -> bool {
    &&& 0 <= n < rounds.len()
    &&& forall|k: int| 0 <= k < n ==> passes(#[trigger] rounds[k])
    &&& !passes(rounds[n])
}

/// Waiting for a stop comes to what the first round makes of it that is not passed over: a stop,
/// exit or termination is handed back, the end of the connection is a crash of the adapter, and
/// the end of the time is a timeout. While all rounds are passed over the wait goes on.
pub proof fn law_wait_ends_with_the_first_stop(timeout_secs: u64, rounds: Seq<Received>)
    ensures
        match wait_result(timeout_secs, rounds) {
            Some(Ok(event)) => event.ends_wait() && exists|n: int| #[trigger]
                decides(rounds, n) && rounds[n] == Received::Event(event),
            Some(Err(ErrorView::AdapterCrashed)) => exists|n: int| #[trigger]
                decides(rounds, n) && rounds[n] is Closed,
            Some(Err(ErrorView::AwaitTimeout(secs))) => secs == timeout_secs && exists|n: int|
             #[trigger]
                decides(rounds, n) && rounds[n] is TimedOut,
            Some(Err(_)) => false,
            None => forall|k: int| 0 <= k < rounds.len() ==> passes(#[trigger] rounds[k]),
        },
        forall|n: int| #[trigger]
            decides(rounds, n) ==> wait_result(timeout_secs, rounds) == Some(
                match rounds[n] {
                    Received::Event(event) => Ok(event),
                    Received::Closed => Err(ErrorView::AdapterCrashed),
                    Received::TimedOut => Err(ErrorView::AwaitTimeout(timeout_secs)),
                },
            ),
    decreases rounds.len(),
{
    if rounds.len() > 0 {
        let rest = rounds.drop_first();
        law_wait_ends_with_the_first_stop(timeout_secs, rest);
        if passes(rounds[0]) {
            assert forall|n: int| #[trigger] decides(rest, n) implies decides(rounds, n + 1) by {
                assert forall|k: int| 0 <= k < n + 1 implies passes(#[trigger] rounds[k]) by {
                    if k > 0 {
                        assert(rest[k - 1] == rounds[k]);
                    }
                }
                assert(rest[n] == rounds[n + 1]);
            }
            assert forall|n: int| #[trigger] decides(rounds, n) implies decides(rest, n - 1) by {
                assert forall|k: int| 0 <= k < n - 1 implies passes(#[trigger] rest[k]) by {
                    assert(rest[k] == rounds[k + 1]);
                }
                assert(rest[n - 1] == rounds[n]);
            }
            if wait_result(timeout_secs, rest) is Some {
                let n = choose|n: int| #[trigger] decides(rest, n);
                assert(decides(rounds, n + 1));
            } else {
                assert forall|k: int| 0 <= k < rounds.len() implies passes(
                    #[trigger] rounds[k],
                ) by {
                    if k > 0 {
                        assert(rest[k - 1] == rounds[k]);
                    }
                }
            }
        } else {
            assert(decides(rounds, 0));
            assert forall|n: int| #[trigger] decides(rounds, n) implies n == 0 by {
                if n > 0 {
                    assert(passes(rounds[0]));
                }
            }
        }
    }
}

/// Waiting for the debuggee to settle fails only where the connection has ended, and ends at the
/// latest when the time is up.
pub proof fn law_settling_succeeds(received: Received)
    ensures
        match crate::state::settle_verdict(received) {
            Some(Err(error)) => received is Closed && error is AdapterCrashed,
            Some(Ok(())) => received is TimedOut || received is Event
                && received->Event_0.ends_wait(),
            None => received is Event && !received->Event_0.ends_wait(),
        },
{
}

/// When a wait has ended with an event, the debuggee has stopped or exited.
pub proof fn law_awaited_session_has_stopped(
    session: SessionView,
    event: Event,
    now: std::time::Instant,
)
    requires
        event.ends_wait(),
    ensures
        ({
            let after = session.after_event(event, now);
            after.state is Stopped || after.state is Exited
        }),
{
}

/// Unless the debuggee has stopped, every request to inspect it or to step is refused, with the
/// exit code where it has exited, and changes nothing.
pub proof fn law_inspection_needs_a_stop(
    session: SessionView,
    step: StepView,
    motion: Motion,
    index: usize,
)
    requires
        !(session.state is Stopped),
    ensures
        ({
            let error = if session.state is Exited {
                ErrorView::ProgramExited(
                    match session.exit_code {
                        Some(code) => code,
                        None => 0,
                    },
                )
            } else {
                ErrorView::InvalidState { action: "inspect"@, state: session.state.name() }
            };
            &&& session.if_stopped(step) == StepView::Done(Err(error))
            &&& session.select_frame(index) == (session, StepView::Done(Err(error)))
            &&& !(motion is Continue && session.state is Running) ==> session.resume(motion)
                == StepView::Done(Err(error))
        }),
{
}

/// Continuing a debuggee that already runs does nothing and succeeds.
pub proof fn law_continuing_while_running_is_idle(session: SessionView)
    requires
        session.state is Running,
    ensures
        session.resume(Motion::Continue) == StepView::Done(Ok(OutcomeView::Unit)),
{
}

/// A debuggee can be paused exactly while it runs.
pub proof fn law_pause_needs_a_running_debuggee(session: SessionView)
    ensures
        session.pause() is Done <==> !(session.state is Running),
        !(session.state is Running) ==> session.pause() == StepView::Done(
            Err(ErrorView::InvalidState { action: "pause"@, state: session.state.name() }),
        ),
{
}

/// Where the adapter acknowledges that the debuggee runs on, it counts as running, and so can be
/// paused but not inspected; after a continue nothing is left of the stop.
pub proof fn law_resumed_debuggee_runs(session: SessionView, motion: Motion)
    ensures
        ({
            let (after, step) = session.control_acknowledged(
                AfterControl::Resumed(motion),
                Ok(()),
            );
            &&& step == StepView::Done(Ok(OutcomeView::Unit))
            &&& after.state is Running
            &&& after.not_stopped() is Some
            &&& motion is Continue ==> after.stopped_thread is None && after.stopped_reason is None
        }),
{
}

/// A request that the adapter refuses, or that is lost, ends with that error and leaves the
/// session as it is.
pub proof fn law_failed_request_changes_nothing(
    session: SessionView,
    error: ErrorView,
    breakpoints: AfterBreakpointsView,
    threads: AfterThreadsView,
    frames: AfterFramesView,
    control: AfterControl,
    locals: bool,
)
    ensures
        session.breakpoints_received(breakpoints, Err::<Seq<Breakpoint>, ErrorView>(error)) == (
            session,
            StepView::Done(Err(error)),
        ),
        session.threads_received(threads, Err::<Seq<Thread>, ErrorView>(error)) == (
            session,
            StepView::Done(Err(error)),
        ),
        session.frames_received(frames, Err::<Seq<StackFrame>, ErrorView>(error)) == (
            session,
            StepView::Done(Err(error)),
        ),
        session.scopes_received(locals, Err::<Seq<Scope>, ErrorView>(error)) == StepView::Done(
            Err(error),
        ),
        session.control_acknowledged(control, Err::<(), ErrorView>(error)) == (
            session,
            StepView::Done(Err(error)),
        ),
{
}

/// Requests are about the selected thread, before the one that stopped, before the first that is
/// known; only where none is known are the threads asked for, and then the first is taken.
pub proof fn law_thread_preference(
    session: SessionView,
    purpose: ThreadUseView,
    threads: Seq<Thread>,
)
    ensures
        session.selected_thread is Some ==> session.with_thread(purpose)
            == crate::state::thread_step(purpose, session.selected_thread->0),
        session.selected_thread is None && session.stopped_thread is Some ==> session.with_thread(
            purpose,
        ) == crate::state::thread_step(purpose, session.stopped_thread->0),
        session.selected_thread is None && session.stopped_thread is None
            && session.threads.len() > 0 ==> session.with_thread(purpose)
            == crate::state::thread_step(purpose, session.threads[0].id),
        session.selected_thread is None && session.stopped_thread is None
            && session.threads.len() == 0 ==> session.with_thread(purpose) == StepView::Threads(
            AfterThreadsView::Use(purpose),
        ),
        session.threads_received(AfterThreadsView::Use(purpose), Ok(threads)).1 == if threads.len()
            > 0 {
            crate::state::thread_step(purpose, threads[0].id)
        } else {
            StepView::Done(Err(ErrorView::Internal("No threads available"@)))
        },
{
}

/// A thread can be selected exactly if it is in the list. Requests are then about it, from the top
/// of its stack; a thread that is not in the list leaves the session as it is.
pub proof fn law_selected_thread_is_used(session: SessionView, thread_id: i64)
    ensures
        ({
            let (after, result) = session.select_thread(thread_id);
            &&& result is Ok <==> crate::state::has_thread(session.threads, thread_id)
            &&& result is Ok ==> after.known_thread() == Some(thread_id) && after
                == session.at_top().select_thread(thread_id).0
            &&& result is Err ==> after == session
        }),
{
}

/// A thread that has exited is in the list no more, nor selected; the others stay in the list.
pub proof fn law_exited_thread_is_forgotten(
    session: SessionView,
    event: Event,
    now: std::time::Instant,
    other: i64,
)
    requires
        event is Thread,
        event->Thread_0.reason@ == "exited"@,
        other != event->Thread_0.thread_id,
    ensures
        ({
            let id = event->Thread_0.thread_id;
            let after = session.after_event(event, now);
            &&& !crate::state::has_thread(after.threads, id)
            &&& after.selected_thread != Some(id)
            &&& crate::state::has_thread(after.threads, other) == crate::state::has_thread(
                session.threads,
                other,
            )
            &&& session.selected_thread == Some(other) ==> after.selected_thread == Some(other)
        }),
{
    let id = event->Thread_0.thread_id;
    let keep = |thread: Thread| thread.id != id;
    let threads = session.threads;
    let left = threads.filter(keep);
    if crate::state::has_thread(left, id) {
        let i = choose|i: int| 0 <= i < left.len() && #[trigger] left[i].id == id;
        threads.lemma_filter_pred(keep, i);
    }
    if crate::state::has_thread(threads, other) {
        let i = choose|i: int| 0 <= i < threads.len() && #[trigger] threads[i].id == other;
        threads.lemma_filter_contains(keep, i);
        let k = choose|k: int| 0 <= k < left.len() && left[k] == threads[i];
        assert(left[k].id == other);
    }
    if crate::state::has_thread(left, other) {
        let i = choose|i: int| 0 <= i < left.len() && #[trigger] left[i].id == other;
        assert(left.contains(left[i]));
        threads.lemma_filter_contains_rev(keep, left[i]);
        let k = choose|k: int| 0 <= k < threads.len() && threads[k] == left[i];
        assert(threads[k].id == other);
    }
}

/// Selecting a frame gives that frame, and makes it the one that scopes and expressions are about.
pub proof fn law_selected_frame_is_used(
    session: SessionView,
    index: usize,
    frames: Seq<StackFrame>,
    purpose: FrameUseView,
)
    requires
        index < frames.len(),
    ensures
        ({
            let (after, step) = session.frames_received(
                AfterFramesView::SelectFrame { index },
                Ok(frames),
            );
            &&& step == StepView::Done(Ok(OutcomeView::Frame(frames[index as int])))
            &&& after.current_frame_index == index
            &&& after.with_frame(purpose, None) == crate::state::frame_step(
                purpose,
                Some(frames[index as int].id),
            )
        }),
{
}

/// Going up to the caller and down again leads back to the same frame.
pub proof fn law_down_undoes_up(session: SessionView)
    requires
        session.state is Stopped,
        session.current_frame_index + 1 < session.cached_frames.len(),
        session.cached_frames.len() <= usize::MAX,
    ensures
        ({
            let here = session.current_frame_index as int;
            let (up, up_step) = session.frame_up();
            let (back, back_step) = up.frame_down();
            &&& up_step == StepView::Done(Ok(OutcomeView::Frame(session.cached_frames[here + 1])))
            &&& back_step == StepView::Done(Ok(OutcomeView::Frame(session.cached_frames[here])))
            &&& back == (SessionView {
                current_frame: Some(session.cached_frames[here].id),
                ..session
            })
        }),
{
}

/// Going down leads back as well where the frames had to be asked for on the way up.
pub proof fn law_down_undoes_fetched_up(session: SessionView, frames: Seq<StackFrame>)
    requires
        session.state is Stopped,
        session.current_frame_index + 1 < frames.len(),
        frames.len() <= usize::MAX,
    ensures
        ({
            let here = session.current_frame_index;
            let index = (here + 1) as usize;
            let (up, up_step) = session.frames_received(
                AfterFramesView::SelectFrame { index },
                Ok(frames),
            );
            let (back, back_step) = up.frame_down();
            &&& up_step == StepView::Done(Ok(OutcomeView::Frame(frames[here + 1])))
            &&& back_step == StepView::Done(Ok(OutcomeView::Frame(frames[here as int])))
            &&& back == (SessionView {
                current_frame: Some(frames[here as int].id),
                cached_frames: frames,
                ..session
            })
        }),
{
}

/// There is no way down from the innermost frame.
pub proof fn law_innermost_frame_has_nothing_below(session: SessionView)
    requires
        session.current_frame_index == 0,
    ensures
        session.frame_down() == (
            session,
            StepView::Done(
                Err(
                    ErrorView::InvalidState {
                        action: "frame down"@,
                        state: "already at innermost frame"@,
                    },
                ),
            ),
        ),
{
}

/// The number of frames asked for reaches the one that is wanted, and is no less than the usual
/// number.
pub proof fn law_enough_frames_are_asked_for(index: usize)
    requires
        index < i64::MAX,
        index < usize::MAX,
    ensures
        crate::state::levels_for(index) > index,
        crate::state::levels_for(index) >= crate::state::FRAMES_FETCHED,
{
}

/// Local variables are those of the first scope that is named for them, else those of the first
/// scope; where there is no scope there are none.
pub proof fn law_locals_have_a_fallback(session: SessionView, scopes: Seq<Scope>)
    requires
        session.state is Stopped,
    ensures
        match session.scopes_received(true, Ok(scopes)) {
            StepView::Variables { reference } => exists|i: int|
                0 <= i < scopes.len() && (#[trigger] scopes[i]).variables_reference == reference
                    && {
                    ||| crate::state::holds_locals(scopes[i]) && forall|k: int|
                        0 <= k < i ==> !crate::state::holds_locals(#[trigger] scopes[k])
                    ||| i == 0 && forall|k: int|
                        0 <= k < scopes.len() ==> !crate::state::holds_locals(#[trigger] scopes[k])
                },
            StepView::Done(Ok(OutcomeView::Variables(variables))) => scopes.len() == 0
                && variables.len() == 0,
            _ => false,
        },
{
    lemma_first_locals(scopes);
    if scopes.len() > 0 {
        let i = crate::state::first_locals(scopes);
        if i < scopes.len() {
            assert(crate::state::holds_locals(scopes[i]));
        } else {
            assert(!crate::state::holds_locals(scopes[0]));
        }
    }
}

pub proof fn lemma_first_locals(scopes: Seq<Scope>)
    ensures
        0 <= crate::state::first_locals(scopes) <= scopes.len(),
        crate::state::first_locals(scopes) < scopes.len() ==> crate::state::holds_locals(
            scopes[crate::state::first_locals(scopes)],
        ),
        forall|k: int|
            0 <= k < crate::state::first_locals(scopes) ==> !crate::state::holds_locals(
                #[trigger] scopes[k],
            ),
    decreases scopes.len(),
{
    if scopes.len() > 0 && !crate::state::holds_locals(scopes[0]) {
        let rest = scopes.drop_first();
        lemma_first_locals(rest);
        assert forall|k: int|
            0 <= k < crate::state::first_locals(scopes) implies !crate::state::holds_locals(
            #[trigger] scopes[k],
        ) by {
            if k > 0 {
                assert(rest[k - 1] == scopes[k]);
            }
        }
    }
}

/// Detaching never takes the debuggee down, stopping does exactly where the session had launched
/// it, and stopping ends with the request to terminate.
pub proof fn law_how_a_session_ends(session: SessionView)
    ensures
        session.end(false).1 == (StepView::Control {
            request: Control::Disconnect { terminate_debuggee: false },
            after: AfterControl::Detached,
        }),
        session.end(true).1 == (StepView::Control {
            request: Control::Disconnect { terminate_debuggee: session.launched },
            after: AfterControl::Disconnected,
        }),
        session.end(true).0.control_acknowledged(AfterControl::Disconnected, Ok(())) == (
            session.end(true).0,
            StepView::Control { request: Control::Terminate, after: AfterControl::Terminated },
        ),
        session.end(false).0.state is Terminating,
        session.end(true).0.state is Terminating,
{
}

/// A restart leaves nothing of the last stop, and keeps breakpoints and output.
pub proof fn law_restart_clears_the_stop(session: SessionView)
    ensures
        ({
            let (after, step) = session.control_acknowledged(AfterControl::Restarted, Ok(()));
            &&& step == StepView::Settle
            &&& after.state is Running
            &&& after.stopped_thread is None
            &&& after.stopped_reason is None
            &&& after.current_frame is None
            &&& after.current_frame_index == 0
            &&& after.cached_frames.len() == 0
            &&& after.breakpoints == session.breakpoints
            &&& after.output == session.output
        }),
{
}

/// How many answers a request can still wait for.
pub open spec fn answers_left(step: StepView) -> nat {
    match step {
        StepView::Done(_) => 0,
        StepView::Settle | StepView::Variables { .. } | StepView::Evaluate { .. } => 1,
        StepView::Control { after: AfterControl::Disconnected, .. } => 2,
        StepView::Control { after: AfterControl::Restarted, .. } => 2,
        StepView::Control { .. } => 1,
        StepView::Scopes { .. } => 2,
        StepView::StackTrace { after: AfterFramesView::TopFrame(_), .. } => 3,
        StepView::StackTrace { .. } => 1,
        StepView::Threads(_) => 4,
        StepView::Drain(_) => 5,
        StepView::SetFunctionBreakpoints { after, .. } => clearing_left(after),
        StepView::SetBreakpoints { after, .. } => clearing_left(after),
    }
}

/// How many answers on breakpoints can still be waited for.
pub open spec fn clearing_left(after: AfterBreakpointsView) -> nat {
    match after {
        AfterBreakpointsView::ClearedFile { rest } => rest.len() + 2,
        _ => 1,
    }
}

/// Every request comes to an end: each answer, whatever it is, leaves fewer to wait for.
pub proof fn law_requests_come_to_an_end(
    session: SessionView,
    file: crate::paths::SourcePath,
    requests: Seq<crate::protocol::SourceBreakpointView>,
    breakpoints: AfterBreakpointsView,
    reports: Result<Seq<Breakpoint>, ErrorView>,
    motion: Motion,
    threads_for: AfterThreadsView,
    threads: Result<Seq<Thread>, ErrorView>,
    thread_id: i64,
    levels: i64,
    frames_for: AfterFramesView,
    frames: Result<Seq<StackFrame>, ErrorView>,
    frame_id: i64,
    locals: bool,
    scopes: Result<Seq<Scope>, ErrorView>,
    control: Control,
    acknowledged: AfterControl,
    reply: Result<(), ErrorView>,
)
    ensures
        answers_left(session.breakpoints_received(breakpoints, reports).1) < answers_left(
            StepView::SetBreakpoints { file, breakpoints: requests, after: breakpoints },
        ),
        answers_left(session.with_thread(ThreadUseView::Resume(motion))) < answers_left(
            StepView::Drain(motion),
        ),
        answers_left(session.threads_received(threads_for, threads).1) < answers_left(
            StepView::Threads(threads_for),
        ),
        answers_left(session.frames_received(frames_for, frames).1) < answers_left(
            StepView::StackTrace { thread_id, levels, after: frames_for },
        ),
        answers_left(session.scopes_received(locals, scopes)) < answers_left(
            StepView::Scopes { frame_id, locals },
        ),
        answers_left(session.control_acknowledged(acknowledged, reply).1) < answers_left(
            StepView::Control { request: control, after: acknowledged },
        ),
{
}

} // verus!
