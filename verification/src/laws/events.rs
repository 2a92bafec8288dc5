//! What each event does to a session.

use crate::error::ErrorView;
use crate::protocol::{Event, Thread};
use crate::state::{SessionState, SessionView};
use crate::step::Received;
use vstd::prelude::*;

verus! {

/// Whether two sessions were opened alike: whatever happens to the debuggee, this stays.
pub open spec fn same_setup(a: SessionView, b: SessionView) -> bool {
    &&& a.capabilities == b.capabilities
    &&& a.program == b.program
    &&& a.args == b.args
    &&& a.adapter_name == b.adapter_name
    &&& a.launched == b.launched
    &&& a.request_timeout_secs == b.request_timeout_secs
}

/// Whether two sessions know the same threads and have the same one selected.
pub open spec fn same_threads(a: SessionView, b: SessionView) -> bool {
    a.threads == b.threads && a.selected_thread == b.selected_thread
}

/// Whether two sessions say the same of the last stop.
pub open spec fn same_stop(a: SessionView, b: SessionView) -> bool {
    &&& a.stopped_thread == b.stopped_thread
    &&& a.stopped_reason == b.stopped_reason
    &&& a.hit_breakpoints == b.hit_breakpoints
}

/// Whether two sessions are at the same place of the same stack.
pub open spec fn same_frames(a: SessionView, b: SessionView) -> bool {
    &&& a.current_frame_index == b.current_frame_index
    &&& a.current_frame == b.current_frame
    &&& a.cached_frames == b.cached_frames
}

/// Whether a session is at the top of a stack of which it knows nothing yet.
pub open spec fn fresh_stack(session: SessionView) -> bool {
    &&& session.current_frame_index == 0
    &&& session.current_frame is None
    &&& session.cached_frames.len() == 0
}

/// A stop is noted with its thread, its reason and the breakpoints that were hit, and the user
/// starts at the top of the stack.
pub proof fn law_stop_is_noted(session: SessionView, event: Event, now: std::time::Instant)
    requires
        event is Stopped,
    ensures
        ({
            let after = session.after_event(event, now);
            &&& after.state == SessionState::Stopped
            &&& after.stopped_thread == event->Stopped_0.thread_id
            &&& after.stopped_reason == Some(event->Stopped_0.reason@)
            &&& after.hit_breakpoints == event->Stopped_0.hit_breakpoint_ids@
            &&& fresh_stack(after)
            &&& same_setup(after, session)
            &&& same_threads(after, session)
            &&& after.breakpoints == session.breakpoints
            &&& after.output == session.output
            &&& after.exit_code == session.exit_code
        }),
{
}

/// When the debuggee runs on by itself, nothing is left of the stop.
pub proof fn law_continuation_is_noted(
    session: SessionView,
    event: Event,
    now: std::time::Instant,
)
    requires
        event is Continued,
    ensures
        ({
            let after = session.after_event(event, now);
            &&& after.state == SessionState::Running
            &&& after.stopped_thread is None
            &&& after.stopped_reason is None
            &&& after.hit_breakpoints.len() == 0
            &&& fresh_stack(after)
            &&& same_setup(after, session)
            &&& same_threads(after, session)
            &&& after.breakpoints == session.breakpoints
            &&& after.output == session.output
            &&& after.exit_code == session.exit_code
        }),
{
}

/// An exit is noted with its code, a termination without one: a code that is known stays known.
/// What was known of the last stop stays as well.
pub proof fn law_end_is_noted(session: SessionView, event: Event, now: std::time::Instant)
    requires
        event is Exited || event is Terminated,
    ensures
        ({
            let after = session.after_event(event, now);
            &&& after.state == SessionState::Exited
            &&& after.exit_code == if event is Exited {
                Some(event->Exited_0.exit_code)
            } else {
                session.exit_code
            }
            &&& same_setup(after, session)
            &&& same_threads(after, session)
            &&& same_stop(after, session)
            &&& same_frames(after, session)
            &&& after.breakpoints == session.breakpoints
            &&& after.output == session.output
        }),
{
}

/// Output goes to the buffer under its category, or as console output where it has none, and
/// changes nothing else.
pub proof fn law_output_is_buffered(session: SessionView, event: Event, now: std::time::Instant)
    requires
        event is Output,
        session.output.max_events > 0,
        crate::text::byte_len(event->Output_0.output@) <= session.output.max_bytes,
    ensures
        ({
            let after = session.after_event(event, now);
            let newest = after.output.events.last();
            &&& after == (SessionView { output: after.output, ..session })
            &&& after.output.max_events == session.output.max_events
            &&& after.output.max_bytes == session.output.max_bytes
            &&& after.output.events.len() > 0
            &&& newest.output == event->Output_0.output@
            &&& newest.timestamp == now
            &&& match event->Output_0.category {
                Some(category) => newest.category == category@,
                None => newest.category == "console"@,
            }
        }),
{
}

/// Output of any length goes to the buffer under its category and with its time, and changes
/// nothing but the buffer; one that may hold nothing stays as it is.
pub proof fn law_output_changes_the_buffer_only(
    session: SessionView,
    event: Event,
    now: std::time::Instant,
)
    requires
        event is Output,
    ensures
        ({
            let after = session.after_event(event, now);
            &&& after == (SessionView { output: after.output, ..session })
            &&& session.output.max_events == 0 ==> after == session
            &&& session.output.max_events > 0 ==> {
                let newest = after.output.events.last();
                &&& newest.timestamp == now
                &&& newest.category == match event->Output_0.category {
                    Some(category) => category@,
                    None => "console"@,
                }
                &&& newest.output.is_prefix_of(event->Output_0.output@)
                &&& after.output == session.output.with_output(
                    newest.category,
                    event->Output_0.output@,
                    now,
                )
            }
        }),
{
    crate::text::lemma_fitting_prefix(
        event->Output_0.output@,
        session.output.max_bytes as nat,
    );
}

/// A thread that exits leaves the list, in which the others keep their order, and is selected no
/// more. Any other news of a thread changes nothing.
pub proof fn law_thread_news(session: SessionView, event: Event, now: std::time::Instant)
    requires
        event is Thread,
    ensures
        ({
            let id = event->Thread_0.thread_id;
            let after = session.after_event(event, now);
            if event->Thread_0.reason@ == "exited"@ {
                &&& after == (SessionView {
                    threads: after.threads,
                    selected_thread: after.selected_thread,
                    ..session
                })
                &&& after.threads == session.threads.filter(|thread: Thread| thread.id != id)
                &&& session.selected_thread == Some(id) ==> after.selected_thread is None
                &&& session.selected_thread != Some(id) ==> after.selected_thread
                    == session.selected_thread
            } else {
                after == session
            }
        }),
{
}

/// Other events change nothing.
pub proof fn law_other_events_are_idle(session: SessionView, event: Event, now: std::time::Instant)
    requires
        event is Initialized || event is Other,
    ensures
        session.after_event(event, now) == session,
{
}

/// Events are handled one after the other, in the order in which they arrived.
pub proof fn law_events_are_handled_in_order(
    session: SessionView,
    events: Seq<Event>,
    event: Event,
    times: Seq<std::time::Instant>,
    now: std::time::Instant,
)
    requires
        events.len() == times.len(),
    ensures
        session.after_events(Seq::empty(), Seq::empty()) == session,
        session.after_events(events.push(event), times.push(now)) == session.after_events(
            events,
            times,
        ).after_event(event, now),
{
    assert(events.push(event).drop_last() =~= events);
    assert(times.push(now).drop_last() =~= times);
}

/// What comes of a run of events is explained by them one by one: without an event nothing
/// happens, and the last one acts on what the others came to.
pub proof fn law_events_explain_the_session(
    session: SessionView,
    events: Seq<Event>,
    event: Event,
    next: SessionView,
)
    ensures
        session.comes_to(Seq::empty(), next) ==> next == session,
        session.comes_to(events.push(event), next) ==> exists|
            between: SessionView,
            now: std::time::Instant,
        |
            session.comes_to(events, between) && next == #[trigger] between.after_event(event, now),
{
    if session.comes_to(events.push(event), next) {
        let times = choose|times: Seq<std::time::Instant>|
            times.len() == events.push(event).len() && next == #[trigger] session.after_events(
                events.push(event),
                times,
            );
        assert(events.push(event).drop_last() =~= events);
        let between = session.after_events(events, times.drop_last());
        assert(session.comes_to(events, between));
        assert(next == between.after_event(event, times.last()));
    }
}

/// What arrives during a wait is handled like any other event, and a wait in which nothing arrives
/// changes nothing.
pub proof fn law_waiting_handles_what_arrives(
    session: SessionView,
    event: Event,
    now: std::time::Instant,
)
    ensures
        session.after_received(Received::Event(event), now) == session.after_event(event, now),
        session.after_received(Received::Closed, now) == session,
        session.after_received(Received::TimedOut, now) == session,
{
}

/// A wait is over exactly when the debuggee has stopped, exited or terminated, or when nothing
/// more can come. A wait for a stop hands that event back and fails otherwise; a wait for settling
/// is content with the end of its time too.
pub proof fn law_what_ends_a_wait(event: Event, timeout_secs: u64)
    ensures
        event.ends_wait() <==> (event is Stopped || event is Exited || event is Terminated),
        crate::state::stop_verdict(timeout_secs, Received::Event(event)) == if event is Stopped
            || event is Exited || event is Terminated {
            Some(Ok::<Event, ErrorView>(event))
        } else {
            None
        },
        crate::state::stop_verdict(timeout_secs, Received::Closed) == Some(
            Err::<Event, ErrorView>(ErrorView::AdapterCrashed),
        ),
        crate::state::stop_verdict(timeout_secs, Received::TimedOut) == Some(
            Err::<Event, ErrorView>(ErrorView::AwaitTimeout(timeout_secs)),
        ),
        crate::state::settle_verdict(Received::Event(event)) == if event is Stopped
            || event is Exited || event is Terminated {
            Some(Ok::<(), ErrorView>(()))
        } else {
            None
        },
        crate::state::settle_verdict(Received::Closed) == Some(
            Err::<(), ErrorView>(ErrorView::AdapterCrashed),
        ),
        crate::state::settle_verdict(Received::TimedOut) == Some(Ok::<(), ErrorView>(())),
{
}

} // verus!
