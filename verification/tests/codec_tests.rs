use chat_stream::codec::decode;
use chat_stream::codec::decode_chat_created;
use chat_stream::codec::decode_message_sent;
use chat_stream::codec::encode_chat_created;
use chat_stream::codec::encode_live_message;
use chat_stream::codec::encode_message_sent;
use chat_stream::events::ChatCreatedEvent;
use chat_stream::events::ChatMessageSentEvent;
use chat_stream::events::DomainEvent;

fn created(chat_id: &str, user_id: &str, subject: &str) -> ChatCreatedEvent {
    ChatCreatedEvent {
        chat_id: chat_id.to_string(),
        user_id: user_id.to_string(),
        subject: subject.to_string(),
    }
}

fn sent(chat_id: &str, message_id: &str, user_id: &str, message: &str) -> ChatMessageSentEvent {
    ChatMessageSentEvent {
        chat_id: chat_id.to_string(),
        message_id: message_id.to_string(),
        user_id: user_id.to_string(),
        message: message.to_string(),
    }
}

#[test]
fn encode_chat_created_exact() {
    let e = created("c1", "u1", "hi");
    assert_eq!(
        encode_chat_created(&e),
        "{\"chat_id\":\"c1\",\"user_id\":\"u1\",\"subject\":\"hi\"}"
    );
}

#[test]
fn encode_message_sent_exact() {
    let e = sent("c1", "m1", "u1", "hello");
    assert_eq!(
        encode_message_sent(&e),
        "{\"chat_id\":\"c1\",\"message_id\":\"m1\",\"user_id\":\"u1\",\"message\":\"hello\"}"
    );
}

#[test]
fn encode_live_message_exact() {
    let e = sent("c1", "m1", "u1", "hello");
    assert_eq!(
        encode_live_message(&e),
        "{\"message\":\"hello\",\"message_id\":\"m1\",\"sent_by\":\"u1\"}"
    );
}

#[test]
fn encode_escapes_quotes_and_backslashes() {
    let e = created("c1", "u1", "a\"b\\c");
    assert_eq!(
        encode_chat_created(&e),
        "{\"chat_id\":\"c1\",\"user_id\":\"u1\",\"subject\":\"a\\\"b\\\\c\"}"
    );
}

#[test]
fn encode_escapes_control_characters() {
    let e = sent("c1", "m1", "u1", "line1\nline2\ttab\u{1}end");
    assert_eq!(
        encode_message_sent(&e),
        "{\"chat_id\":\"c1\",\"message_id\":\"m1\",\"user_id\":\"u1\",\"message\":\"line1\\nline2\\ttab\\u0001end\"}"
    );
}

#[test]
fn round_trip_chat_created() {
    let e = created("chat-42", "user \"quoted\"", "subject with \\ and \n and \u{3} and ünïcödé");
    let payload = encode_chat_created(&e);
    let back = decode_chat_created(&payload).expect("payload must decode");
    assert_eq!(back.chat_id, e.chat_id);
    assert_eq!(back.user_id, e.user_id);
    assert_eq!(back.subject, e.subject);
}

#[test]
fn round_trip_message_sent() {
    let e = sent("c1", "m-1", "u-1", "hello\r\nworld \u{8}\u{c}\t \"quoted\" 日本語");
    let payload = encode_message_sent(&e);
    let back = decode_message_sent(&payload).expect("payload must decode");
    assert_eq!(back.chat_id, e.chat_id);
    assert_eq!(back.message_id, e.message_id);
    assert_eq!(back.user_id, e.user_id);
    assert_eq!(back.message, e.message);
}

#[test]
fn encoded_payload_agrees_with_a_json_parser() {
    let e = sent("c1", "m1", "u\"x\\y", "a\nb\u{2}c");
    let payload = encode_message_sent(&e);
    let v: serde_json::Value = serde_json::from_str(&payload).expect("output must be valid JSON");
    assert_eq!(v.get("chat_id").unwrap().as_str().unwrap(), "c1");
    assert_eq!(v.get("message_id").unwrap().as_str().unwrap(), "m1");
    assert_eq!(v.get("user_id").unwrap().as_str().unwrap(), "u\"x\\y");
    assert_eq!(v.get("message").unwrap().as_str().unwrap(), "a\nb\u{2}c");
}

#[test]
fn decode_reads_what_a_json_serializer_writes() {
    let payload = "{\"chat_id\":\"c9\",\"user_id\":\"u9\",\"subject\":\"caf\\u0009tab\"}";
    let e = decode_chat_created(payload).expect("payload must decode");
    assert_eq!(e.chat_id, "c9");
    assert_eq!(e.user_id, "u9");
    assert_eq!(e.subject, "caf\ttab");
}

#[test]
fn decode_dispatches_on_type_tag() {
    let e = created("c1", "u1", "hi");
    let payload = encode_chat_created(&e);
    match decode("ChatCreatedEvent", &payload) {
        Some(DomainEvent::ChatCreated(back)) => assert_eq!(back.chat_id, "c1"),
        _ => panic!("expected a chat-created event"),
    }
}

#[test]
fn decode_unknown_tag_is_none() {
    let e = created("c1", "u1", "hi");
    let payload = encode_chat_created(&e);
    assert!(decode("SomethingElseEvent", &payload).is_none());
    assert!(decode("", &payload).is_none());
}

#[test]
fn decode_malformed_payload_is_none() {
    assert!(decode("ChatCreatedEvent", "").is_none());
    assert!(decode("ChatCreatedEvent", "{").is_none());
    assert!(decode("ChatCreatedEvent", "not json at all").is_none());
    assert!(decode("ChatCreatedEvent", "{\"chat_id\":\"c1\"}").is_none());
    assert!(decode("ChatCreatedEvent", "{\"chat_id\":\"c1\",\"user_id\":\"u1\",\"subject\":\"hi\"} ").is_none());
    assert!(decode("ChatCreatedEvent", "{\"chat_id\":\"c1\",\"user_id\":\"u1\",\"subject\":\"hi").is_none());
    assert!(decode("ChatMessageSentEvent", "{\"chat_id\":\"c1\",\"user_id\":\"u1\",\"subject\":\"hi\"}").is_none());
}

#[test]
fn decode_rejects_bad_escapes() {
    assert!(decode_chat_created("{\"chat_id\":\"c1\",\"user_id\":\"u1\",\"subject\":\"\\x\"}").is_none());
    assert!(decode_chat_created("{\"chat_id\":\"c1\",\"user_id\":\"u1\",\"subject\":\"\\u00g0\"}").is_none());
    assert!(decode_chat_created("{\"chat_id\":\"c1\",\"user_id\":\"u1\",\"subject\":\"\\\"}").is_none());
}
