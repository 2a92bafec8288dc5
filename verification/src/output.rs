//! Output that is kept until it is asked for.

use std::collections::VecDeque;
use vstd::prelude::*;

verus! {

/// A moment of the system's monotonic clock.
#[verifier::external_type_specification]
#[verifier::external_body]
pub struct ExInstant(std::time::Instant);

/// Calls `std::time::Instant::now`. Nothing is claimed of the moment that it reads.
#[verifier::external_body]
pub(crate) fn current_time() -> (now: std::time::Instant) {
    std::time::Instant::now()
}

/// A piece of output, kept for later retrieval.
#[derive(Debug)]
pub struct OutputEvent {
    pub category: String,
    pub output: String,
    pub timestamp: std::time::Instant,
}

/// The contents of an [`OutputEvent`].
pub struct OutputEventView {
    pub category: Seq<char>,
    pub output: Seq<char>,
    pub timestamp: std::time::Instant,
}

impl View for OutputEvent {
    type V = OutputEventView;

    open spec fn view(&self) -> OutputEventView {
        OutputEventView {
            category: self.category@,
            output: self.output@,
            timestamp: self.timestamp,
        }
    }
}

impl Clone for OutputEvent {
    fn clone(&self) -> (copy: Self)
        ensures
            copy == *self,
    {
        OutputEvent {
            category: self.category.clone(),
            output: self.output.clone(),
            timestamp: self.timestamp,
        }
    }
}

/// The contents of a run of output events.
pub open spec fn event_views(events: Seq<OutputEvent>) -> Seq<OutputEventView> {
    events.map_values(|event: OutputEvent| event@)
}

/// The bytes that the texts of `events` take together.
pub open spec fn total_bytes(events: Seq<OutputEventView>) -> nat
    decreases events.len(),
{
    if events.len() == 0 {
        0
    } else {
        crate::text::byte_len(events[0].output) + total_bytes(events.drop_first())
    }
}

pub proof fn lemma_total_bytes_push(events: Seq<OutputEventView>, event: OutputEventView)
    ensures
        total_bytes(events.push(event)) == total_bytes(events) + crate::text::byte_len(
            event.output,
        ),
    decreases events.len(),
{
    if events.len() == 0 {
        assert(events.push(event).drop_first() =~= Seq::<OutputEventView>::empty());
        reveal_with_fuel(total_bytes, 2);
    } else {
        assert(events.push(event).drop_first() =~= events.drop_first().push(event));
        lemma_total_bytes_push(events.drop_first(), event);
    }
}

/// The newest of `events`: as many as take at most `bytes` bytes and number at most `count`.
pub open spec fn newest_within(
    events: Seq<OutputEventView>,
    bytes: int,
    count: int,
) -> Seq<OutputEventView>
    decreases events.len(),
{
    if events.len() == 0 || (total_bytes(events) <= bytes && events.len() <= count) {
        events
    } else {
        newest_within(events.drop_first(), bytes, count)
    }
}

/// What an [`OutputBuffer`] holds, oldest first, and how much it may hold.
#[verifier::ext_equal]
pub struct OutputView {
    pub events: Seq<OutputEventView>,
    pub max_events: usize,
    pub max_bytes: usize,
}

impl OutputView {
    /// Neither limit is exceeded.
    pub open spec fn within_limits(self) -> bool {
        &&& self.events.len() <= self.max_events
        &&& total_bytes(self.events) <= self.max_bytes
    }

    /// The buffer after a further piece of output. A text that alone would exceed the byte limit
    /// is cut to its longest prefix that fits, the oldest events make way until both limits hold,
    /// and a buffer that may hold no events takes none.
    pub open spec fn with_output(
        self,
        category: Seq<char>,
        output: Seq<char>,
        timestamp: std::time::Instant,
    ) -> OutputView {
        let text = crate::text::fitting_prefix(output, self.max_bytes as nat);
        if self.max_events == 0 {
            self
        } else {
            OutputView {
                events: newest_within(
                    self.events,
                    self.max_bytes - crate::text::byte_len(text),
                    self.max_events - 1,
                ).push(OutputEventView { category, output: text, timestamp }),
                ..self
            }
        }
    }

    /// The newest `tail` events, or all of them.
    pub open spec fn newest(self, tail: Option<usize>) -> Seq<OutputEventView> {
        match tail {
            Some(n) if n < self.events.len() => self.events.skip(self.events.len() - n),
            _ => self.events,
        }
    }

    /// The buffer with nothing in it.
    pub open spec fn cleared(self) -> OutputView {
        OutputView { events: Seq::empty(), ..self }
    }
}

/// Output that is kept until it is asked for, within a limit on events and one on bytes.
#[derive(Debug)]
pub struct OutputBuffer {
    events: VecDeque<OutputEvent>,
    max_events: usize,
    max_bytes: usize,
    bytes: usize,
}

impl View for OutputBuffer {
    type V = OutputView;

    closed spec fn view(&self) -> OutputView {
        OutputView {
            events: event_views(self.events@),
            max_events: self.max_events,
            max_bytes: self.max_bytes,
        }
    }
}

impl OutputBuffer {
    /// The byte count is that of the events, and neither limit is exceeded.
    pub closed spec fn wf(&self) -> bool {
        &&& self.bytes == total_bytes(self@.events)
        &&& self@.within_limits()
    }

    /// A well-formed buffer exceeds neither limit.
    pub proof fn lemma_wf_within_limits(&self)
        requires
            self.wf(),
        ensures
            self@.within_limits(),
    {
    }

    /// An empty buffer with the given limits.
    pub fn new(max_events: usize, max_bytes: usize) -> (buffer: OutputBuffer)
        ensures
            buffer.wf(),
            buffer@ == (OutputView { events: Seq::empty(), max_events, max_bytes }),
    {
        let buffer = OutputBuffer { events: VecDeque::new(), max_events, max_bytes, bytes: 0 };
        assert(buffer@.events =~= Seq::<OutputEventView>::empty());
        buffer
    }

    fn drop_oldest(&mut self)
        requires
            old(self).bytes == total_bytes(old(self)@.events),
            old(self)@.events.len() > 0,
        ensures
            final(self).bytes == total_bytes(final(self)@.events),
            final(self)@ == (OutputView {
                events: old(self)@.events.drop_first(),
                ..old(self)@
            }),
    {
        let removed = self.events.pop_front();
        assert(self@.events =~= old(self)@.events.drop_first());
        if let Some(event) = removed {
            let size = crate::text::byte_count(event.output.as_str());
            self.bytes = self.bytes - size;
        }
    }

    /// Keeps `output` for later, stamped with the present moment.
    pub fn push(&mut self, category: &str, output: &str)
        requires
            old(self).wf(),
        ensures
            final(self).wf(),
            exists|now: std::time::Instant|
                final(self)@ == #[trigger] old(self)@.with_output(category@, output@, now),
    {
        let now = current_time();
        self.push_at(category, output, now);
    }

    /// Keeps `output` for later, stamped with `now`.
    pub fn push_at(&mut self, category: &str, output: &str, now: std::time::Instant)
        requires
            old(self).wf(),
        ensures
            final(self).wf(),
            final(self)@ == old(self)@.with_output(category@, output@, now),
    {
        if self.max_events == 0 {
            return ;
        }
        let text = crate::text::cut_to_fit(output, self.max_bytes);
        let size = crate::text::byte_count(text.as_str());
        proof {
            crate::text::lemma_fitting_prefix(output@, self.max_bytes as nat);
        }
        let ghost kept = newest_within(
            old(self)@.events,
            old(self)@.max_bytes - size,
            old(self)@.max_events - 1,
        );
        while self.events.len() > 0 && (self.bytes > self.max_bytes - size || self.events.len()
            >= self.max_events)
            invariant
                self.bytes == total_bytes(self@.events),
                self@.max_bytes == old(self)@.max_bytes,
                self@.max_events == old(self)@.max_events,
                self.max_events > 0,
                size <= self.max_bytes,
                kept == newest_within(self@.events, self@.max_bytes - size, self@.max_events - 1),
            decreases self.events@.len(),
        {
            self.drop_oldest();
        }
        assert(kept =~= self@.events);
        let event = OutputEvent { category: category.to_string(), output: text, timestamp: now };
        proof {
            lemma_total_bytes_push(self@.events, event@);
        }
        let ghost before = self@.events;
        self.events.push_back(event);
        self.bytes = self.bytes + size;
        assert(self@.events =~= before.push(event@));
    }

    /// The newest `tail` events, or all of them, oldest first; the buffer is emptied where `clear`
    /// is set.
    pub fn take_newest(&mut self, tail: Option<usize>, clear: bool) -> (events: Vec<OutputEvent>)
        requires
            old(self).wf(),
        ensures
            final(self).wf(),
            event_views(events@) == old(self)@.newest(tail),
            final(self)@ == if clear {
                old(self)@.cleared()
            } else {
                old(self)@
            },
    {
        let len = self.events.len();
        let start: usize = match tail {
            Some(n) if n < len => len - n,
            _ => 0,
        };
        let mut events: Vec<OutputEvent> = Vec::new();
        let mut i: usize = start;
        while i < len
            invariant
                start <= i <= len,
                len == self.events@.len(),
                *self == *old(self),
                events@ == self.events@.subrange(start as int, i as int),
            decreases len - i,
        {
            events.push(self.events[i].clone());
            i = i + 1;
        }
        assert(event_views(events@) =~= old(self)@.newest(tail));
        if clear {
            self.events.clear();
            self.bytes = 0;
            assert(self@.events =~= Seq::<OutputEventView>::empty());
        }
        events
    }
}

} // verus!
