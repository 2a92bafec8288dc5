//! How the stack is walked, and what is asked of a frame.

use crate::error::ErrorView;
use crate::protocol::{Scope, StackFrame};
use crate::state::SessionView;
use crate::step::{
    AfterFramesView, AfterThreadsView, FrameUseView, OutcomeView, StepView, ThreadUseView,
};
use vstd::prelude::*;

verus! {

/// Whether `levels` is a fitting number of frames to ask for so that the one at `index` is among
/// them: twenty, or as many more as it takes.
pub open spec fn enough_for(levels: i64, index: int) -> bool {
    &&& levels > index
    &&& levels >= 20
    &&& index < 20 ==> levels == 20
    &&& index >= 20 ==> levels == index + 1
}

/// Whether `step` asks for frames so that the one at `index` becomes the current one, of the
/// thread that requests are about, or after asking for the threads where none is known.
pub open spec fn fetches_frame(session: SessionView, step: StepView, index: int) -> bool {
    match step {
        StepView::StackTrace { thread_id, levels, after } => {
            &&& crate::laws::control::is_about(session, thread_id)
            &&& enough_for(levels, index)
            &&& after matches AfterFramesView::SelectFrame { index: wanted } && wanted == index
        },
        StepView::Threads(after) => {
            &&& crate::laws::control::knows_no_thread(session)
            &&& match after {
                AfterThreadsView::Use(ThreadUseView::SelectFrame { index: wanted, levels }) => {
                    wanted == index && enough_for(levels, index)
                },
                _ => false,
            }
        },
        _ => false,
    }
}

/// Whether the frame at `index` of those at hand has become the current one and was handed back,
/// with nothing else changed.
pub open spec fn arrives_at(
    session: SessionView,
    after: SessionView,
    step: StepView,
    index: int,
) -> bool {
    &&& step == StepView::Done(Ok(OutcomeView::Frame(session.cached_frames[index])))
    &&& after.current_frame_index == index
    &&& after.current_frame == Some(session.cached_frames[index].id)
    &&& after == (SessionView {
        current_frame_index: after.current_frame_index,
        current_frame: after.current_frame,
        ..session
    })
}

/// In a stopped session a frame that is at hand is selected at once, and any other is asked for.
/// The request itself changes nothing.
pub proof fn law_frame_is_taken_or_fetched(session: SessionView, index: usize)
    requires
        session.state is Stopped,
        index < i64::MAX,
        index < usize::MAX,
    ensures
        ({
            let (after, step) = session.select_frame(index);
            if index < session.cached_frames.len() {
                arrives_at(session, after, step, index as int)
            } else {
                after == session && fetches_frame(session, step, index as int)
            }
        }),
{
}

/// In a stopped session going up leads to the frame one above the current one, whether it is at
/// hand or has to be asked for.
pub proof fn law_up_leads_to_the_caller(session: SessionView)
    requires
        session.state is Stopped,
        session.current_frame_index + 1 < i64::MAX,
        session.current_frame_index + 1 < usize::MAX,
    ensures
        ({
            let above = session.current_frame_index + 1;
            let (after, step) = session.frame_up();
            if above < session.cached_frames.len() {
                arrives_at(session, after, step, above)
            } else {
                after == session && fetches_frame(session, step, above)
            }
        }),
{
}

/// In a stopped session going down leads to the frame one below the current one, whether it is at
/// hand or has to be asked for; from the innermost frame there is no way down.
pub proof fn law_down_leads_to_the_callee(session: SessionView)
    requires
        session.state is Stopped,
        session.current_frame_index < i64::MAX,
    ensures
        ({
            let below = session.current_frame_index - 1;
            let (after, step) = session.frame_down();
            if below < 0 {
                after == session && step == StepView::Done(
                    Err(
                        ErrorView::InvalidState {
                            action: "frame down"@,
                            state: "already at innermost frame"@,
                        },
                    ),
                )
            } else if below < session.cached_frames.len() {
                arrives_at(session, after, step, below)
            } else {
                after == session && fetches_frame(session, step, below)
            }
        }),
{
}

/// Unless the debuggee has stopped, no frame can be selected, and moving is refused for the same
/// reason.
pub proof fn law_moving_needs_a_stop(session: SessionView, index: usize)
    requires
        !(session.state is Stopped),
    ensures
        session.select_frame(index).0 == session,
        match session.select_frame(index).1 {
            StepView::Done(Err(error)) => crate::laws::control::refusal(session, error),
            _ => false,
        },
        session.frame_up() == session.select_frame(index),
        session.current_frame_index > 0 ==> session.frame_down() == session.select_frame(index),
{
}

/// Frames that were fetched are kept. The wanted one becomes the current one, and where they do
/// not reach that far the frame is not found and the current one stays.
pub proof fn law_fetched_frames_are_kept(
    session: SessionView,
    index: usize,
    frames: Seq<StackFrame>,
)
    ensures
        ({
            let kept = SessionView { cached_frames: frames, ..session };
            let (after, step) = session.frames_received(
                AfterFramesView::SelectFrame { index },
                Ok(frames),
            );
            if index < frames.len() {
                arrives_at(kept, after, step, index as int)
            } else {
                after == kept && step == StepView::Done(Err(ErrorView::FrameNotFound(index)))
            }
        }),
{
}

/// A stack trace gives the frames as the adapter lists them and makes the innermost one the
/// current frame for scopes and expressions; where there are none the current frame stays.
pub proof fn law_stack_trace_makes_the_top_current(
    session: SessionView,
    frames: Seq<StackFrame>,
)
    ensures
        ({
            let (after, step) = session.frames_received(AfterFramesView::StackTrace, Ok(frames));
            &&& step == StepView::Done(Ok(OutcomeView::Frames(frames)))
            &&& after.current_frame == if frames.len() > 0 {
                Some(frames[0].id)
            } else {
                session.current_frame
            }
            &&& after == (SessionView { current_frame: after.current_frame, ..session })
        }),
{
}

/// Scopes and expressions are about the frame that was given, else about the current one, else
/// about the innermost one, which is asked for.
pub proof fn law_frame_preference(
    session: SessionView,
    given: Option<i64>,
    locals: bool,
    expression: Seq<char>,
    context: Seq<char>,
)
    ensures
        ({
            let scopes = session.with_frame(FrameUseView::Scopes { locals }, given);
            let value = session.with_frame(FrameUseView::Evaluate { expression, context }, given);
            match (given, session.current_frame) {
                (Some(id), _) => {
                    &&& scopes == (StepView::Scopes { frame_id: id, locals })
                    &&& value == (StepView::Evaluate { expression, frame_id: Some(id), context })
                },
                (None, Some(id)) => {
                    &&& scopes == (StepView::Scopes { frame_id: id, locals })
                    &&& value == (StepView::Evaluate { expression, frame_id: Some(id), context })
                },
                (None, None) => {
                    &&& fetches_top(session, scopes, FrameUseView::Scopes { locals })
                    &&& fetches_top(session, value, FrameUseView::Evaluate { expression, context })
                },
            }
        }),
{
}

/// Whether `step` asks for the innermost frame of the thread that requests are about, or for the
/// threads where none is known, and goes on with `purpose`.
pub open spec fn fetches_top(session: SessionView, step: StepView, purpose: FrameUseView) -> bool {
    match step {
        StepView::StackTrace { thread_id, levels, after } => {
            &&& crate::laws::control::is_about(session, thread_id)
            &&& levels == 1
            &&& after == AfterFramesView::TopFrame(purpose)
        },
        StepView::Threads(after) => {
            &&& crate::laws::control::knows_no_thread(session)
            &&& after == AfterThreadsView::Use(ThreadUseView::TopFrame(purpose))
        },
        _ => false,
    }
}

/// An expression for which the innermost frame was asked for is evaluated in that frame, which
/// becomes the current one. Where there is no frame it is evaluated without one. The expression and
/// its context are those that were given.
pub proof fn law_expression_is_evaluated_in_the_top_frame(
    session: SessionView,
    expression: Seq<char>,
    context: Seq<char>,
    frames: Seq<StackFrame>,
)
    ensures
        ({
            let (after, step) = session.frames_received(
                AfterFramesView::TopFrame(FrameUseView::Evaluate { expression, context }),
                Ok(frames),
            );
            if frames.len() > 0 {
                &&& step == (StepView::Evaluate {
                    expression,
                    frame_id: Some(frames[0].id),
                    context,
                })
                &&& after == (SessionView { current_frame: Some(frames[0].id), ..session })
            } else {
                &&& step == (StepView::Evaluate { expression, frame_id: None, context })
                &&& after == session
            }
        }),
{
}

/// Scopes for which the innermost frame was asked for are those of that frame, which becomes the
/// current one. Where there is no frame there are no scopes to ask for.
pub proof fn law_scopes_are_those_of_the_top_frame(
    session: SessionView,
    locals: bool,
    frames: Seq<StackFrame>,
)
    ensures
        ({
            let (after, step) = session.frames_received(
                AfterFramesView::TopFrame(FrameUseView::Scopes { locals }),
                Ok(frames),
            );
            if frames.len() > 0 {
                &&& step == (StepView::Scopes { frame_id: frames[0].id, locals })
                &&& after == (SessionView { current_frame: Some(frames[0].id), ..session })
            } else {
                &&& step == StepView::Done(Err(ErrorView::Internal("No stack frames available"@)))
                &&& after == session
            }
        }),
{
}

/// A request to inspect goes through exactly when the debuggee has stopped.
pub proof fn law_inspection_goes_through_on_a_stop(session: SessionView, step: StepView)
    ensures
        session.state is Stopped ==> session.if_stopped(step) == step,
        !(session.state is Stopped) ==> match session.if_stopped(step) {
            StepView::Done(Err(error)) => crate::laws::control::refusal(session, error),
            _ => false,
        },
{
}

/// Scopes that were asked for are handed back as the adapter lists them.
pub proof fn law_scopes_are_handed_back(session: SessionView, scopes: Seq<Scope>)
    ensures
        session.scopes_received(false, Ok(scopes)) == StepView::Done(
            Ok(OutcomeView::Scopes(scopes)),
        ),
{
}

/// Whether a scope goes by one of the two names for local variables.
pub open spec fn named_for_locals(scope: Scope) -> bool {
    scope.name@ == "Locals"@ || scope.name@ == "Local"@
}

/// Local variables are those of the first scope that goes by a name for them. The scopes before
/// it do not matter.
pub proof fn law_locals_are_in_their_scope(session: SessionView, scopes: Seq<Scope>, n: int)
    requires
        session.state is Stopped,
        0 <= n < scopes.len(),
        named_for_locals(scopes[n]),
        forall|k: int| 0 <= k < n ==> !named_for_locals(#[trigger] scopes[k]),
    ensures
        session.scopes_received(true, Ok(scopes)) == (StepView::Variables {
            reference: scopes[n].variables_reference,
        }),
{
    lemma_first_locals(scopes, n);
}

/// Where no scope goes by a name for local variables, those of the first scope are taken, and
/// where there is no scope there are none.
pub proof fn law_locals_without_a_scope(session: SessionView, scopes: Seq<Scope>)
    requires
        session.state is Stopped,
        forall|k: int| 0 <= k < scopes.len() ==> !named_for_locals(#[trigger] scopes[k]),
    ensures
        session.scopes_received(true, Ok(scopes)) == if scopes.len() > 0 {
            StepView::Variables { reference: scopes[0].variables_reference }
        } else {
            StepView::Done(Ok(OutcomeView::Variables(Seq::empty())))
        },
{
    lemma_first_locals(scopes, scopes.len() as int);
}

/// Variables are asked for only while the debuggee is stopped: where it runs on before its scopes
/// are known, the request is refused, unless there is no scope to ask about.
pub proof fn law_locals_need_the_stop_to_last(session: SessionView, scopes: Seq<Scope>)
    requires
        !(session.state is Stopped),
    ensures
        match session.scopes_received(true, Ok(scopes)) {
            StepView::Done(Err(error)) => scopes.len() > 0 && crate::laws::control::refusal(
                session,
                error,
            ),
            StepView::Done(Ok(OutcomeView::Variables(variables))) => scopes.len() == 0
                && variables.len() == 0,
            _ => false,
        },
{
    crate::laws::session::lemma_first_locals(scopes);
}

proof fn lemma_first_locals(scopes: Seq<Scope>, n: int)
    requires
        0 <= n <= scopes.len(),
        n < scopes.len() ==> named_for_locals(scopes[n]),
        forall|k: int| 0 <= k < n ==> !named_for_locals(#[trigger] scopes[k]),
    ensures
        crate::state::first_locals(scopes) == n,
    decreases n,
{
    if n > 0 {
        assert(!named_for_locals(scopes[0]));
        let rest = scopes.drop_first();
        assert forall|k: int| 0 <= k < n - 1 implies !named_for_locals(#[trigger] rest[k]) by {
            assert(rest[k] == scopes[k + 1]);
        }
        lemma_first_locals(rest, n - 1);
    }
}

} // verus!
