use chatbot::consumer::{ChatSession, Received};
use chatbot::decoder::{classify_line, LineDecoder, SseLine};
use chatbot::items::{ChatMessage, Role};
use chatbot::session::{
    connection_error_message, extract_fragment, http_error_message, is_success_status,
    stream_end, StreamSession,
};

fn event(text: &str) -> String {
    format!("data: {{\"choices\":[{{\"delta\":{{\"content\":\"{}\"}}}}]}}\n", text)
}

#[test]
fn line_reassembly_at_every_split() {
    let bytes = b"data: {\"a\":1}\n";
    for k in 0..=bytes.len() {
        let mut d = LineDecoder::new();
        let mut lines = d.feed(&bytes[..k]);
        lines.extend(d.feed(&bytes[k..]));
        assert_eq!(lines, vec![b"data: {\"a\":1}".to_vec()], "split at {}", k);
        assert_eq!(d.flush_remainder(), None);
    }
}

#[test]
fn terminator_split_across_chunks() {
    let mut d = LineDecoder::new();
    assert!(d.feed(b"one\r").is_empty());
    assert_eq!(d.feed(b"\ntwo"), vec![b"one\r".to_vec()]);
    assert_eq!(d.flush_remainder(), Some(b"two".to_vec()));
    assert_eq!(d.flush_remainder(), None);
}

#[test]
fn classify_lines() {
    assert!(matches!(classify_line(b"data: [DONE]"), SseLine::Done));
    assert!(matches!(classify_line(b"  data: [DONE]\r"), SseLine::Done));
    match classify_line(b"data:  {\"x\":2} \r") {
        SseLine::Data(p) => assert_eq!(p, b"{\"x\":2}".to_vec()),
        _ => panic!("expected a payload"),
    }
    assert!(matches!(classify_line(b": keep-alive"), SseLine::Other));
    assert!(matches!(classify_line(b"event: ping"), SseLine::Other));
    assert!(matches!(classify_line(b"data:[DONE]"), SseLine::Other));
    assert!(matches!(classify_line(b""), SseLine::Other));
}

#[test]
fn fragment_extraction() {
    let p = br#"{"choices":[{"delta":{"content":"Hi \"there\""}}]}"#;
    assert_eq!(extract_fragment(p), Some("Hi \"there\"".to_string()));
    assert_eq!(extract_fragment(br#"{"choices":[{"delta":{"role":"assistant"}}]}"#), None);
    assert_eq!(extract_fragment(br#"{"choices":[]}"#), None);
    assert_eq!(extract_fragment(b"not json"), None);
    assert_eq!(extract_fragment(br#"{"choices":[{"delta":{"content":7}}]}"#), None);
}

#[test]
fn terminator_detection() {
    let mut s = StreamSession::new();
    let body = format!("{}{}data: [DONE]\n{}", event("a"), event("b"), event("c"));
    let msgs = s.on_chunk(body.as_bytes());
    assert_eq!(msgs, vec!["a".to_string(), "b".to_string(), "__STREAM_END__".to_string()]);
    assert!(s.is_finished());
    assert!(s.on_chunk(event("d").as_bytes()).is_empty());
    assert!(s.on_body_end().is_empty());
}

#[test]
fn malformed_event_is_skipped() {
    let mut s = StreamSession::new();
    let body = format!("data: {{broken\n: comment\n{}data: [DONE]\n", event("ok"));
    assert_eq!(s.on_chunk(body.as_bytes()), vec!["ok".to_string(), stream_end()]);
}

#[test]
fn events_split_across_chunks_keep_order() {
    let body = format!("{}{}{}data: [DONE]\n", event("Hel"), event("lo"), event(" world"));
    let bytes = body.as_bytes();
    for k in 0..=bytes.len() {
        let mut s = StreamSession::new();
        let mut msgs = s.on_chunk(&bytes[..k]);
        msgs.extend(s.on_chunk(&bytes[k..]));
        assert_eq!(
            msgs,
            vec!["Hel".to_string(), "lo".to_string(), " world".to_string(), stream_end()]
        );
    }
}

#[test]
fn body_end_reads_last_partial_line_without_terminator() {
    let mut s = StreamSession::new();
    let body = event("x");
    let partial = body.trim_end_matches('\n');
    assert!(s.on_chunk(partial.as_bytes()).is_empty());
    assert_eq!(s.on_body_end(), vec!["x".to_string()]);
    assert!(s.is_finished());
}

#[test]
fn error_surfacing() {
    let mut s = StreamSession::new();
    assert_eq!(
        s.on_http_error(500, Some("oops".to_string())),
        vec!["Error: HTTP 500 - oops".to_string()]
    );
    assert!(s.is_finished());
    assert!(s.on_chunk(event("late").as_bytes()).is_empty());
    assert_eq!(http_error_message(404, None), "Error: HTTP 404 - Unknown error");
}

#[test]
fn connection_error_text() {
    let mut s = StreamSession::new();
    assert_eq!(
        s.on_connection_error("refused"),
        vec!["Connection error: refused".to_string()]
    );
    assert_eq!(connection_error_message("dns"), "Connection error: dns");
    assert!(s.on_connection_error("again").is_empty());
}

#[test]
fn success_statuses() {
    assert!(is_success_status(200));
    assert!(is_success_status(299));
    assert!(!is_success_status(199));
    assert!(!is_success_status(300));
    assert!(!is_success_status(500));
}

fn waiting_session() -> ChatSession {
    let mut c = ChatSession::new();
    c.chat_messages.push(ChatMessage::new(Role::User, "hi"));
    c.chat_messages.push(ChatMessage::new(Role::Assistant, ""));
    c.is_waiting_response = true;
    c.receiving = true;
    c
}

#[test]
fn fragment_ordering() {
    let mut c = waiting_session();
    for m in ["Hel", "lo", "", " world"] {
        let step = c.on_received(Received::Message(m.to_string()));
        assert!(step.keep_draining);
    }
    assert_eq!(c.current_response, "Hello world");
    let step = c.on_received(Received::Message(stream_end()));
    assert!(!step.keep_draining);
    let saved = step.to_persist.expect("the response is committed");
    assert_eq!(saved.role, Role::Assistant);
    assert_eq!(saved.content, "Hello world");
    assert_eq!(c.chat_messages[1].content, "Hello world");
    assert_eq!(c.chat_messages[0].content, "hi");
    assert!(!c.receiving);
    assert!(!c.is_waiting_response);
    assert!(c.should_focus_input);
    assert_eq!(c.last_error, None);
}

#[test]
fn end_with_no_text_commits_nothing() {
    let mut c = waiting_session();
    let step = c.on_received(Received::Message(stream_end()));
    assert!(step.to_persist.is_none());
    assert_eq!(c.chat_messages[1].content, "");
    assert!(!c.is_waiting_response);
}

#[test]
fn error_message_ends_exchange() {
    let mut c = waiting_session();
    c.on_received(Received::Message("part".to_string()));
    let step = c.on_received(Received::Message("Error: HTTP 500 - oops".to_string()));
    assert!(!step.keep_draining);
    assert_eq!(c.last_error, Some("Error: HTTP 500 - oops".to_string()));
    assert_eq!(c.current_response, "\u{274C} Error: HTTP 500 - oops");
    assert!(!c.receiving);
    assert!(!c.is_waiting_response);
    let mut d = waiting_session();
    d.on_received(Received::Message("Connection error: reset".to_string()));
    assert_eq!(d.last_error, Some("Connection error: reset".to_string()));
}

#[test]
fn disconnect_and_empty_channel() {
    let mut c = waiting_session();
    c.on_received(Received::Message("abc".to_string()));
    let step = c.on_received(Received::Empty);
    assert!(!step.keep_draining);
    assert!(c.receiving);
    let step = c.on_received(Received::Disconnected);
    assert!(!step.keep_draining);
    assert!(!c.receiving);
    assert!(!c.is_waiting_response);
    assert_eq!(c.last_error, None);
    assert_eq!(c.current_response, "abc");
    let step = c.on_received(Received::Message("more".to_string()));
    assert!(!step.keep_draining);
    assert_eq!(c.current_response, "abc");
}
