use ask::sse::{decode_sse_body, SseDecoder};
use ask::FeedOutcome;

#[test]
fn synthetic_stream_accumulates_hello() {
    let body = "data: {\"choices\":[{\"delta\":{\"content\":\"He\"}}]}\n\ndata: {\"choices\":[{\"delta\":{\"content\":\"llo\"}}]}\n\ndata: [DONE]\n\n";
    let (text, done) = decode_sse_body(body);
    assert_eq!(text, "Hello");
    assert!(done);
}

#[test]
fn synthetic_stream_emits_two_fragments_then_done() {
    let mut dec = SseDecoder::new();
    let out1 = dec.feed_line("data: {\"choices\":[{\"delta\":{\"content\":\"He\"}}]}");
    match out1 {
        FeedOutcome::Emitted(f) => assert_eq!(f, "He"),
        _ => panic!("first data line must emit"),
    }
    let out2 = dec.feed_line("");
    assert!(matches!(out2, FeedOutcome::Skipped));
    let out3 = dec.feed_line("data: {\"choices\":[{\"delta\":{\"content\":\"llo\"}}]}");
    match out3 {
        FeedOutcome::Emitted(f) => assert_eq!(f, "llo"),
        _ => panic!("second data line must emit"),
    }
    let out4 = dec.feed_line("data: [DONE]");
    assert!(matches!(out4, FeedOutcome::Done));
    assert!(dec.is_done());
    // Completion is signaled exactly once: a line after the sentinel neither
    // emits nor signals again.
    let out5 = dec.feed_line("data: {\"choices\":[{\"delta\":{\"content\":\"X\"}}]}");
    assert!(matches!(out5, FeedOutcome::Skipped));
    assert_eq!(dec.into_text(), "Hello");
}

#[test]
fn blank_and_non_data_lines_change_nothing() {
    let mut dec = SseDecoder::new();
    dec.feed_line("data: {\"choices\":[{\"delta\":{\"content\":\"Hi\"}}]}");
    for line in ["", "   ", "event: ping", ": keep-alive", "datum: x"] {
        let out = dec.feed_line(line);
        assert!(matches!(out, FeedOutcome::Skipped));
        assert_eq!(dec.accumulated(), "Hi");
        assert!(!dec.is_done());
    }
}

#[test]
fn malformed_payloads_are_skipped_without_terminating() {
    let mut dec = SseDecoder::new();
    for line in [
        "data: not json at all",
        "data: {\"choices\":[]}",
        "data: {\"choices\":[{\"delta\":{}}]}",
        "data: {\"choices\":[{\"delta\":{\"content\":42}}]}",
        "data: {\"other\":true}",
    ] {
        let out = dec.feed_line(line);
        assert!(matches!(out, FeedOutcome::Skipped));
        assert!(!dec.is_done());
    }
    let out = dec.feed_line("data: {\"choices\":[{\"delta\":{\"content\":\"ok\"}}]}");
    assert!(matches!(out, FeedOutcome::Emitted(_)));
    assert_eq!(dec.into_text(), "ok");
}

#[test]
fn decoding_is_idempotent_across_copies() {
    let original =
        "data: {\"choices\":[{\"delta\":{\"content\":\"a\"}}]}\n\ndata: {\"choices\":[{\"delta\":{\"content\":\"b\"}}]}\n\ndata: [DONE]\n\n";
    let copy = String::from(original);
    let (t1, d1) = decode_sse_body(original);
    let (t2, d2) = decode_sse_body(copy.as_str());
    assert_eq!(t1, t2);
    assert_eq!(d1, d2);
    assert_eq!(t1, "ab");
}

#[test]
fn nothing_is_read_after_the_sentinel() {
    let body = "data: {\"choices\":[{\"delta\":{\"content\":\"keep\"}}]}\ndata: [DONE]\ndata: {\"choices\":[{\"delta\":{\"content\":\"drop\"}}]}\n";
    let (text, done) = decode_sse_body(body);
    assert_eq!(text, "keep");
    assert!(done);
}

#[test]
fn crlf_lines_are_handled() {
    let body = "data: {\"choices\":[{\"delta\":{\"content\":\"x\"}}]}\r\ndata: [DONE]\r\n";
    let (text, done) = decode_sse_body(body);
    assert_eq!(text, "x");
    assert!(done);
}

#[test]
fn empty_body_yields_empty_text_without_done() {
    let (text, done) = decode_sse_body("");
    assert_eq!(text, "");
    assert!(!done);
}

#[test]
fn truncated_stream_returns_accumulated_text() {
    let body = "data: {\"choices\":[{\"delta\":{\"content\":\"part\"}}]}\n\n";
    let (text, done) = decode_sse_body(body);
    assert_eq!(text, "part");
    assert!(!done);
}

#[test]
fn done_sentinel_tolerates_surrounding_whitespace() {
    let body = "data: {\"choices\":[{\"delta\":{\"content\":\"y\"}}]}\ndata:  [DONE] \n";
    let (text, done) = decode_sse_body(body);
    assert_eq!(text, "y");
    assert!(done);
}
