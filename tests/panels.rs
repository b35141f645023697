use chatbot::clock::display_time;
use chatbot::consumer::Received;
use chatbot::items::{ChatMessage, Role};
use chatbot::panels::TemplateApp;
use chatbot::request::{bearer, chat_request_body, completions_url, summary_request_body};
use chatbot::session::stream_end;
use chatbot::text::{blank, decimal_text, signed_decimal_text, starts_with};

#[test]
fn numerals() {
    assert_eq!(decimal_text(0), "0");
    assert_eq!(decimal_text(500), "500");
    assert_eq!(decimal_text(u64::MAX), "18446744073709551615");
    assert_eq!(signed_decimal_text(-42), "-42");
    assert_eq!(signed_decimal_text(i64::MIN), "-9223372036854775808");
    assert_eq!(signed_decimal_text(7), "7");
}

#[test]
fn prefixes_and_blanks() {
    assert!(starts_with("Error: x", "Error:"));
    assert!(!starts_with("Err", "Error:"));
    assert!(blank(""));
    assert!(blank(" \t\n\u{3000}"));
    assert!(!blank("  a "));
}

#[test]
fn clock_text() {
    assert_eq!(display_time(0), "00:00");
    assert_eq!(display_time(3661), "01:01");
    assert_eq!(display_time(86399), "23:59");
    assert_eq!(display_time(-60), "23:59");
    assert_eq!(display_time(1431648000 + 13 * 3600 + 7 * 60), "13:07");
}

#[test]
fn request_bodies() {
    let msgs = vec![
        ChatMessage::new(Role::User, "say \"hi\""),
        ChatMessage::new(Role::Assistant, ""),
        ChatMessage::new(Role::Assistant, "hi"),
    ];
    assert_eq!(
        chat_request_body("m1", Some("be brief"), &msgs),
        r#"{"model":"m1","messages":[{"role":"system","content":"be brief"},{"role":"user","content":"say \"hi\""},{"role":"assistant","content":"hi"}],"stream":true,"temperature":0.3}"#
    );
    assert_eq!(
        chat_request_body("m", None, &[]),
        r#"{"model":"m","messages":[],"stream":true,"temperature":0.3}"#
    );
    assert_eq!(
        summary_request_body("m", None, "a\nb"),
        r#"{"model":"m","messages":[{"role":"user","content":"a\nb"}],"stream":true,"temperature":0.3}"#
    );
    assert_eq!(completions_url("https://h"), "https://h/chat/completions");
    assert_eq!(bearer("k"), "Bearer k");
}

fn app() -> TemplateApp {
    TemplateApp::new("https://h", "key", "model-x")
}

#[test]
fn add_to_digest_saves_and_selects() {
    let mut a = app();
    assert_eq!(a.add_to_digest("note".to_string(), Role::Assistant, 3600), Ok(0));
    assert_eq!(a.digest_items.len(), 1);
    assert_eq!(a.digest_items[0].id, "assistant_3600");
    assert_eq!(a.digest_items[0].timestamp, "01:00");
    assert!(a.digest_items[0].selected);
    assert_eq!(a.database.get_database_stats(), (1, 0, 1, 0));
    assert_eq!(a.add_to_long_term_memory("note".to_string(), Role::Assistant, 7200), Ok(0));
    assert_eq!(a.long_term_memory_items[0].id, "assistant_7200");
    assert_eq!(a.database.get_database_stats(), (1, 0, 1, 1));
}

#[test]
fn exports() {
    let mut a = app();
    a.add_to_digest("first".to_string(), Role::User, 0).unwrap();
    a.add_to_digest("second".to_string(), Role::Assistant, 60).unwrap();
    assert_eq!(
        a.export_digest_items(),
        "# Digested Content Export\n\n## Item 1 - You (00:00)\n\nfirst\n\n---\n\n## Item 2 - Assistant (00:01)\n\nsecond\n\n---\n\n*Exported 2 items*"
    );
    assert_eq!(a.export_memory_items(), "# Long Term Memory Export\n\n*Exported 0 items*");
}

#[test]
fn digest_summary_request() {
    let mut a = app();
    assert_eq!(a.start_digest_summary_generation(), None);
    a.add_to_digest("one".to_string(), Role::User, 0).unwrap();
    a.add_to_digest("two".to_string(), Role::Assistant, 60).unwrap();
    a.add_to_digest("three".to_string(), Role::User, 120).unwrap();
    a.digest_items[1].selected = false;
    a.current_system_prompts.push(("digest".to_string(), "summarise".to_string()));
    let body = a.start_digest_summary_generation().expect("a request");
    let prompt = "Please provide a comprehensive summary of the following digest items:\n\n1. User (00:00):\none\n\n2. User (00:02):\nthree\n\nPlease provide a clear, structured summary that captures the key points, main topics discussed, and important conclusions from the above content.";
    assert_eq!(body, summary_request_body("model-x", Some("summarise"), prompt));
    assert_eq!(a.session.chat_messages.len(), 2);
    assert_eq!(a.session.chat_messages[0].content, prompt);
    assert_eq!(a.session.chat_messages[1].role, Role::Assistant);
    assert!(a.session.is_waiting_response);
    assert!(a.session.receiving);
    assert_eq!(a.start_digest_summary_generation(), None);
}

#[test]
fn memory_summary_request() {
    let mut a = app();
    a.add_to_long_term_memory("fact".to_string(), Role::Assistant, 0).unwrap();
    let body = a.start_memory_summary_generation().expect("a request");
    let prompt = "Please provide a comprehensive summary of the following long term memory items:\n\n1. Assistant (00:00):\nfact\n\nPlease provide a clear, structured summary that captures the key points, main topics discussed, and important conclusions from the above content.";
    assert_eq!(body, summary_request_body("model-x", None, prompt));
}

#[test]
fn submit_and_stream_round_trip() {
    let mut a = app();
    assert!(a.submit_input("   ", 0).is_none());
    a.current_system_prompts.push(("chat".to_string(), "old".to_string()));
    a.current_system_prompts.push(("chat".to_string(), "new".to_string()));
    let (body, saved) = a.submit_input("Hi", 100).expect("sent");
    assert_eq!(saved, Ok(0));
    let expected = vec![ChatMessage::new(Role::User, "Hi")];
    assert_eq!(body, chat_request_body("model-x", Some("new"), &expected));
    assert!(a.submit_input("again", 101).is_none());
    a.session.on_received(Received::Message("Hello".to_string()));
    let step = a.session.on_received(Received::Message(stream_end()));
    let reply = step.to_persist.expect("committed");
    a.save_chat_message_to_db(&reply, 102).unwrap();
    assert_eq!(a.database.get_database_stats(), (2, 2, 0, 0));
    a.load_data_from_database();
    assert_eq!(a.session.chat_messages.len(), 2);
    assert_eq!(a.session.chat_messages[1].content, "Hello");
    assert_eq!(
        a.info_text,
        "Database loaded successfully!\nTotal unique content items: 2\nChat messages: 2\nDigest items: 0\nLong-term memory items: 0"
    );
    assert_eq!(a.system_prompt_for("digest"), None);
}
