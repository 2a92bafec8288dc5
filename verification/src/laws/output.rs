//! What holds of buffered output.

use crate::output::{OutputEventView, OutputView};
use vstd::prelude::*;

verus! {

proof fn lemma_newest_within(events: Seq<OutputEventView>, bytes: int, count: int)
    requires
        0 <= bytes,
        0 <= count,
    ensures
        ({
            let kept = crate::output::newest_within(events, bytes, count);
            &&& kept.len() <= events.len()
            &&& kept == events.skip(events.len() - kept.len())
            &&& kept.len() <= count
            &&& crate::output::total_bytes(kept) <= bytes
        }),
    decreases events.len(),
{
    let kept = crate::output::newest_within(events, bytes, count);
    if events.len() == 0 || (crate::output::total_bytes(events) <= bytes && events.len() <= count) {
        assert(events.skip(0) =~= events);
    } else {
        lemma_newest_within(events.drop_first(), bytes, count);
        assert(events.drop_first().skip(events.len() - 1 - kept.len()) =~= events.skip(
            events.len() - kept.len(),
        ));
    }
}

/// Further output never exceeds either limit.
pub proof fn law_limits_are_kept(
    buffer: OutputView,
    category: Seq<char>,
    output: Seq<char>,
    now: std::time::Instant,
)
    requires
        buffer.within_limits(),
    ensures
        buffer.with_output(category, output, now).within_limits(),
        buffer.with_output(category, output, now).events.len() <= buffer.max_events,
        crate::output::total_bytes(buffer.with_output(category, output, now).events)
            <= buffer.max_bytes,
        buffer.with_output(category, output, now).max_events == buffer.max_events,
        buffer.with_output(category, output, now).max_bytes == buffer.max_bytes,
{
    if buffer.max_events > 0 {
        let text = crate::text::fitting_prefix(output, buffer.max_bytes as nat);
        crate::text::lemma_fitting_prefix(output, buffer.max_bytes as nat);
        let bytes = buffer.max_bytes - crate::text::byte_len(text);
        lemma_newest_within(buffer.events, bytes, buffer.max_events - 1);
        let kept = crate::output::newest_within(buffer.events, bytes, buffer.max_events - 1);
        crate::output::lemma_total_bytes_push(
            kept,
            OutputEventView { category, output: text, timestamp: now },
        );
    }
}

/// Further output comes last, and what stays of the earlier output is the newest part of it, in
/// the same order.
pub proof fn law_newest_output_stays(
    buffer: OutputView,
    category: Seq<char>,
    output: Seq<char>,
    now: std::time::Instant,
)
    requires
        buffer.max_events > 0,
    ensures
        ({
            let after = buffer.with_output(category, output, now).events;
            &&& 0 < after.len() <= buffer.events.len() + 1
            &&& after.last() == (OutputEventView {
                category,
                output: crate::text::fitting_prefix(output, buffer.max_bytes as nat),
                timestamp: now,
            })
            &&& after.drop_last() == buffer.events.skip(buffer.events.len() + 1 - after.len())
        }),
{
    let text = crate::text::fitting_prefix(output, buffer.max_bytes as nat);
    crate::text::lemma_fitting_prefix(output, buffer.max_bytes as nat);
    let bytes = buffer.max_bytes - crate::text::byte_len(text);
    lemma_newest_within(buffer.events, bytes, buffer.max_events - 1);
    let kept = crate::output::newest_within(buffer.events, bytes, buffer.max_events - 1);
    let after = buffer.with_output(category, output, now).events;
    assert(after.drop_last() =~= kept);
}

/// Where there is room for further output, nothing is dropped and nothing is cut.
pub proof fn law_output_with_room_is_kept_whole(
    buffer: OutputView,
    category: Seq<char>,
    output: Seq<char>,
    now: std::time::Instant,
)
    requires
        buffer.events.len() < buffer.max_events,
        crate::output::total_bytes(buffer.events) + crate::text::byte_len(output)
            <= buffer.max_bytes,
    ensures
        buffer.with_output(category, output, now).events == buffer.events.push(
            OutputEventView { category, output, timestamp: now },
        ),
{
    crate::text::lemma_fitting_prefix(output, buffer.max_bytes as nat);
}

/// A text that exceeds the byte limit by itself is cut to its longest prefix of whole characters
/// that fits.
pub proof fn law_oversized_output_is_cut(
    buffer: OutputView,
    category: Seq<char>,
    output: Seq<char>,
    now: std::time::Instant,
)
    requires
        buffer.max_events > 0,
        crate::text::byte_len(output) > buffer.max_bytes,
    ensures
        ({
            let text = buffer.with_output(category, output, now).events.last().output;
            &&& text.len() < output.len()
            &&& text == output.take(text.len() as int)
            &&& crate::text::byte_len(text) <= buffer.max_bytes
            &&& crate::text::byte_len(output.take(text.len() as int + 1)) > buffer.max_bytes
        }),
{
    crate::text::lemma_fitting_prefix(output, buffer.max_bytes as nat);
    let text = crate::text::fitting_prefix(output, buffer.max_bytes as nat);
    assert(text =~= output.take(text.len() as int));
    assert(output.take(output.len() as int) =~= output);
}

/// Events make way only as far as they have to: one more of them would have exceeded a limit.
pub proof fn law_no_more_makes_way_than_needed(
    buffer: OutputView,
    category: Seq<char>,
    output: Seq<char>,
    now: std::time::Instant,
)
    requires
        buffer.max_events > 0,
    ensures
        ({
            let after = buffer.with_output(category, output, now).events;
            let dropped = buffer.events.len() + 1 - after.len();
            dropped > 0 ==> {
                let more = buffer.events.skip(dropped - 1).push(after.last());
                more.len() > buffer.max_events || crate::output::total_bytes(more)
                    > buffer.max_bytes
            }
        }),
{
    let text = crate::text::fitting_prefix(output, buffer.max_bytes as nat);
    let bytes = buffer.max_bytes - crate::text::byte_len(text);
    let count = buffer.max_events - 1;
    crate::text::lemma_fitting_prefix(output, buffer.max_bytes as nat);
    lemma_newest_within(buffer.events, bytes, count);
    lemma_newest_within_is_longest(buffer.events, bytes, count);
    let after = buffer.with_output(category, output, now).events;
    let dropped = buffer.events.len() + 1 - after.len();
    if dropped > 0 {
        crate::output::lemma_total_bytes_push(buffer.events.skip(dropped - 1), after.last());
    }
}

proof fn lemma_newest_within_is_longest(events: Seq<OutputEventView>, bytes: int, count: int)
    ensures
        ({
            let kept = crate::output::newest_within(events, bytes, count);
            let dropped = events.len() - kept.len();
            dropped > 0 ==> {
                let more = events.skip(dropped - 1);
                more.len() > count || crate::output::total_bytes(more) > bytes
            }
        }),
    decreases events.len(),
{
    let kept = crate::output::newest_within(events, bytes, count);
    let dropped = events.len() - kept.len();
    if events.len() > 0 && !(crate::output::total_bytes(events) <= bytes && events.len() <= count) {
        let rest = events.drop_first();
        lemma_newest_within_is_longest(rest, bytes, count);
        if dropped == 1 {
            assert(events.skip(0) =~= events);
        } else if dropped > 1 {
            assert(rest.skip(dropped - 2) =~= events.skip(dropped - 1));
        }
    }
}

/// The bytes of a run of events are those of their texts in UTF-8 and of nothing else.
pub proof fn law_bytes_are_those_of_the_texts(
    events: Seq<OutputEventView>,
    event: OutputEventView,
)
    ensures
        crate::output::total_bytes(Seq::empty()) == 0,
        crate::output::total_bytes(events.push(event)) == crate::output::total_bytes(events)
            + vstd::utf8::encode_utf8(event.output).len(),
{
    crate::output::lemma_total_bytes_push(events, event);
}

/// A buffer that may hold no events takes none.
pub proof fn law_buffer_without_events_takes_none(
    buffer: OutputView,
    category: Seq<char>,
    output: Seq<char>,
    now: std::time::Instant,
)
    requires
        buffer.max_events == 0,
    ensures
        buffer.with_output(category, output, now) == buffer,
{
}

/// The newest events come in the order of the buffer, and there are as many as were asked for, or
/// as there are.
pub proof fn law_tail_is_the_newest_part(buffer: OutputView, tail: Option<usize>)
    ensures
        ({
            let newest = buffer.newest(tail);
            &&& newest.len() == match tail {
                Some(n) if n < buffer.events.len() => n as nat,
                _ => buffer.events.len(),
            }
            &&& newest == buffer.events.skip(buffer.events.len() - newest.len())
        }),
{
    assert(buffer.events.skip(0) =~= buffer.events);
}

/// What was put in last is what is read back first.
pub proof fn law_output_is_read_back(
    buffer: OutputView,
    category: Seq<char>,
    output: Seq<char>,
    now: std::time::Instant,
)
    requires
        buffer.max_events > 0,
        crate::text::byte_len(output) <= buffer.max_bytes,
    ensures
        buffer.with_output(category, output, now).newest(Some(1)) == seq![
            OutputEventView { category, output, timestamp: now },
        ],
{
    let after = buffer.with_output(category, output, now);
    assert(after.newest(Some(1)) =~= seq![OutputEventView { category, output, timestamp: now }]);
}

/// A buffer that was emptied has nothing to show, and room for whatever its limits allow.
pub proof fn law_cleared_buffer_is_empty(buffer: OutputView, tail: Option<usize>)
    ensures
        buffer.cleared().newest(tail) == Seq::<OutputEventView>::empty(),
        buffer.cleared().within_limits(),
        buffer.cleared().max_events == buffer.max_events,
        buffer.cleared().max_bytes == buffer.max_bytes,
{
}

} // verus!
