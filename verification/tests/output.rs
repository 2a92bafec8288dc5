use debug_session::output::OutputBuffer;
use debug_session::protocol::{Capabilities, Event, OutputEventBody};
use debug_session::session::DebugSession;
use debug_session::setup::{Handshake, Opening, OpeningStep, Plan};
use debug_session::text::{byte_count, cut_to_fit, decimal_text, signed_decimal_text};
use std::time::{Duration, Instant};

fn texts(buffer: &mut OutputBuffer) -> Vec<String> {
    buffer.take_newest(None, false).iter().map(|event| event.output.clone()).collect()
}

fn session(max_events: usize, max_bytes_mb: usize) -> DebugSession {
    let opening = Opening {
        plan: Plan::Attach { pid: 1 },
        adapter_name: "gdb".to_string(),
        initialize_secs: 1,
        request_secs: 1,
        max_events,
        max_bytes_mb,
    };
    let capabilities = Capabilities {
        supports_function_breakpoints: false,
        supports_conditional_breakpoints: false,
        supports_hit_conditional_breakpoints: false,
        supports_restart_request: false,
    };
    match (Handshake { opening, capabilities }).events_taken(true) {
        OpeningStep::Settle { next } => match next.settled(Ok(())) {
            Ok(session) => session,
            Err(error) => panic!("{:?}", error),
        },
        other => panic!("{:?}", other),
    }
}

#[test]
fn output_with_room_is_kept_in_order() {
    let mut buffer = OutputBuffer::new(3, 10);
    buffer.push("stdout", "one");
    buffer.push("stderr", "two");
    let events = buffer.take_newest(None, false);
    assert_eq!(events.len(), 2);
    assert_eq!(events[0].category, "stdout");
    assert_eq!(events[0].output, "one");
    assert_eq!(events[1].category, "stderr");
    assert_eq!(events[1].output, "two");
}

#[test]
fn oldest_output_makes_way_for_bytes() {
    let mut buffer = OutputBuffer::new(10, 10);
    buffer.push("c", "aaaa");
    buffer.push("c", "bbbb");
    buffer.push("c", "cc");
    assert_eq!(texts(&mut buffer), vec!["aaaa", "bbbb", "cc"]);
    buffer.push("c", "d");
    assert_eq!(texts(&mut buffer), vec!["bbbb", "cc", "d"]);
    buffer.push("c", "eeeeeeeeee");
    assert_eq!(texts(&mut buffer), vec!["eeeeeeeeee"]);
}

#[test]
fn oldest_output_makes_way_for_events() {
    let mut buffer = OutputBuffer::new(2, 100);
    for text in ["a", "b", "c"] {
        buffer.push("c", text);
    }
    assert_eq!(texts(&mut buffer), vec!["b", "c"]);
}

#[test]
fn oversized_output_is_cut_at_a_character() {
    let mut buffer = OutputBuffer::new(5, 4);
    buffer.push("c", "abcdef");
    assert_eq!(texts(&mut buffer), vec!["abcd"]);
    // Each of these takes two bytes, and the last of them would exceed the limit.
    buffer.push("c", "a\u{e9}\u{e9}");
    assert_eq!(texts(&mut buffer), vec!["a\u{e9}"]);
    let mut buffer = OutputBuffer::new(5, 0);
    buffer.push("c", "x");
    assert_eq!(texts(&mut buffer), vec![""]);
}

#[test]
fn buffer_without_events_takes_none() {
    let mut buffer = OutputBuffer::new(0, 100);
    buffer.push("c", "x");
    assert!(texts(&mut buffer).is_empty());
}

#[test]
fn tail_takes_the_newest() {
    let mut buffer = OutputBuffer::new(10, 100);
    for text in ["a", "b", "c"] {
        buffer.push("c", text);
    }
    let tail: Vec<String> =
        buffer.take_newest(Some(2), false).iter().map(|event| event.output.clone()).collect();
    assert_eq!(tail, vec!["b", "c"]);
    assert_eq!(buffer.take_newest(Some(0), false).len(), 0);
    assert_eq!(buffer.take_newest(Some(9), false).len(), 3);
    assert_eq!(buffer.take_newest(Some(1), true).len(), 1);
    assert_eq!(buffer.take_newest(None, false).len(), 0);
}

#[test]
fn cleared_buffer_has_room_again() {
    let mut buffer = OutputBuffer::new(10, 6);
    buffer.push("c", "aaaaaa");
    assert_eq!(buffer.take_newest(None, true).len(), 1);
    buffer.push("c", "bbb");
    buffer.push("c", "ccc");
    assert_eq!(texts(&mut buffer), vec!["bbb", "ccc"]);
}

#[test]
fn output_is_stamped_with_the_moment_it_is_given() {
    let before = Instant::now();
    let mut buffer = OutputBuffer::new(10, 100);
    buffer.push("c", "a");
    let later = before + Duration::from_secs(60);
    buffer.push_at("c", "b", later);
    let events = buffer.take_newest(None, false);
    assert!(events[0].timestamp >= before);
    assert_eq!(events[1].timestamp, later);
}

#[test]
fn output_events_are_buffered_under_their_category() {
    let mut session = session(2, 1);
    let now = Instant::now();
    session.handle_event_at(
        &Event::Output(OutputEventBody { category: None, output: "hello".to_string() }),
        now,
    );
    session.handle_event(&Event::Output(OutputEventBody {
        category: Some("stderr".to_string()),
        output: "oops".to_string(),
    }));
    let events = session.get_output(None, false);
    assert_eq!(events.len(), 2);
    assert_eq!(events[0].category, "console");
    assert_eq!(events[0].output, "hello");
    assert_eq!(events[0].timestamp, now);
    assert_eq!(events[1].category, "stderr");
    session.buffer_output("stdout", "more");
    let events = session.get_output(Some(1), true);
    assert_eq!(events.len(), 1);
    assert_eq!(events[0].output, "more");
    assert!(session.get_output(None, false).is_empty());
}

#[test]
fn session_limit_is_in_megabytes() {
    let mut session = session(5, 1);
    let half = "x".repeat(512 * 1024);
    session.buffer_output("stdout", &half);
    session.buffer_output("stdout", &half);
    assert_eq!(session.get_output(None, false).len(), 2);
    session.buffer_output("stdout", "y");
    assert_eq!(session.get_output(None, false).len(), 2);
}

#[test]
fn texts_are_measured_and_written() {
    assert_eq!(byte_count("a\u{e9}\u{20ac}\u{1f600}"), 10);
    assert_eq!(cut_to_fit("a\u{e9}\u{20ac}\u{1f600}", 9), "a\u{e9}\u{20ac}");
    assert_eq!(cut_to_fit("a\u{e9}\u{20ac}\u{1f600}", 5), "a\u{e9}");
    assert_eq!(cut_to_fit("abc", 3), "abc");
    assert_eq!(decimal_text(0), "0");
    assert_eq!(decimal_text(u64::MAX), "18446744073709551615");
    assert_eq!(signed_decimal_text(i64::MIN), "-9223372036854775808");
    assert_eq!(signed_decimal_text(-1), "-1");
    assert_eq!(signed_decimal_text(120), "120");
}
