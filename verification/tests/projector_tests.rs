use chat_stream::codec::encode_chat_created;
use chat_stream::codec::encode_message_sent;
use chat_stream::events::ChatCreatedEvent;
use chat_stream::events::ChatMessageSentEvent;
use chat_stream::events::DomainEvent;
use chat_stream::events::RecordedEvent;
use chat_stream::projector::State;
use chat_stream::projector::replay;
use chat_stream::query::get_chat;
use chat_stream::query::get_chats;

fn created_event(position: u64, chat_id: &str, user_id: &str, subject: &str) -> RecordedEvent {
    let e = ChatCreatedEvent {
        chat_id: chat_id.to_string(),
        user_id: user_id.to_string(),
        subject: subject.to_string(),
    };
    RecordedEvent {
        event_type: "ChatCreatedEvent".to_string(),
        payload: encode_chat_created(&e),
        position,
    }
}

fn sent_event(
    position: u64,
    chat_id: &str,
    message_id: &str,
    user_id: &str,
    message: &str,
) -> RecordedEvent {
    let e = ChatMessageSentEvent {
        chat_id: chat_id.to_string(),
        message_id: message_id.to_string(),
        user_id: user_id.to_string(),
        message: message.to_string(),
    };
    RecordedEvent {
        event_type: "ChatMessageSentEvent".to_string(),
        payload: encode_message_sent(&e),
        position,
    }
}

#[test]
fn create_then_send_scenario() {
    let mut state = State::new();
    state.handle(&created_event(0, "c1", "u1", "hi"));
    state.handle(&sent_event(1, "c1", "m1", "u1", "hello"));

    let dto = get_chat(&state, "c1").expect("chat c1 must exist");
    assert_eq!(dto.messages.len(), 1);
    assert_eq!(dto.messages[0].message, "hello");
    assert_eq!(dto.messages[0].sent_by, "u1");
    assert_eq!(dto.messages[0].message_id, "m1");

    let chats = get_chats(&state, "u1").expect("user u1 must own a chat");
    assert_eq!(chats.chats.len(), 1);
    assert_eq!(chats.chats[0].chat_id, "c1");
    assert_eq!(chats.chats[0].subject, "hi");
}

#[test]
fn unknown_chat_is_not_found() {
    let mut state = State::new();
    state.handle(&created_event(0, "c1", "u1", "hi"));
    assert!(get_chat(&state, "c2").is_none());
    assert!(get_chat(&State::new(), "c1").is_none());
}

#[test]
fn unknown_user_is_not_found() {
    let mut state = State::new();
    state.handle(&created_event(0, "c1", "u1", "hi"));
    assert!(get_chats(&state, "u2").is_none());
}

#[test]
fn empty_chat_is_found_with_no_messages() {
    let mut state = State::new();
    state.handle(&created_event(0, "c1", "u1", "hi"));
    let dto = get_chat(&state, "c1").expect("an existing empty chat is not not-found");
    assert_eq!(dto.messages.len(), 0);
}

#[test]
fn message_order_is_newest_first() {
    let mut state = State::new();
    state.handle(&created_event(0, "c1", "u1", "hi"));
    state.handle(&sent_event(1, "c1", "m1", "u1", "first"));
    state.handle(&sent_event(2, "c1", "m2", "u2", "second"));
    let dto = get_chat(&state, "c1").unwrap();
    assert_eq!(dto.messages.len(), 2);
    assert_eq!(dto.messages[0].message, "second");
    assert_eq!(dto.messages[1].message, "first");
}

#[test]
fn orphan_message_is_dropped_and_counted() {
    let mut state = State::new();
    state.handle(&sent_event(0, "ghost", "m1", "u1", "hello?"));
    assert!(get_chat(&state, "ghost").is_none());
    assert_eq!(state.dropped_messages, 1);
    assert_eq!(state.decode_anomalies, 0);
}

#[test]
fn redelivered_event_is_not_folded_twice() {
    let mut state = State::new();
    state.handle(&created_event(0, "c1", "u1", "hi"));
    let msg = sent_event(1, "c1", "m1", "u1", "hello");
    state.handle(&msg);
    state.handle(&msg);
    let dto = get_chat(&state, "c1").unwrap();
    assert_eq!(dto.messages.len(), 1);
}

#[test]
fn redelivery_to_fresh_projector_folds_once() {
    let mut state = State::new();
    let ev = created_event(7, "c1", "u1", "hi");
    state.handle(&ev);
    state.handle(&ev);
    let chats = get_chats(&state, "u1").unwrap();
    assert_eq!(chats.chats.len(), 1);
}

#[test]
fn repeated_creation_keeps_the_transcript() {
    let mut state = State::new();
    state.handle(&created_event(0, "c1", "u1", "hi"));
    state.handle(&sent_event(1, "c1", "m1", "u1", "hello"));
    state.handle(&created_event(2, "c1", "u1", "hi"));
    let dto = get_chat(&state, "c1").unwrap();
    assert_eq!(dto.messages.len(), 1);
    let chats = get_chats(&state, "u1").unwrap();
    assert_eq!(chats.chats.len(), 1);
}

#[test]
fn undecodable_payload_is_counted_and_skipped() {
    let mut state = State::new();
    state.handle(&RecordedEvent {
        event_type: "ChatCreatedEvent".to_string(),
        payload: "not json".to_string(),
        position: 0,
    });
    state.handle(&RecordedEvent {
        event_type: "SomeOtherEvent".to_string(),
        payload: "{}".to_string(),
        position: 1,
    });
    assert_eq!(state.decode_anomalies, 2);
    state.handle(&created_event(2, "c1", "u1", "hi"));
    assert!(get_chat(&state, "c1").is_some());
}

#[test]
fn replay_is_deterministic() {
    let events = vec![
        created_event(0, "c1", "u1", "hi"),
        created_event(1, "c2", "u2", "other"),
        sent_event(2, "c1", "m1", "u1", "hello"),
        sent_event(3, "ghost", "m2", "u2", "dropped"),
        sent_event(4, "c2", "m3", "u1", "hey"),
    ];
    let a = replay(&events);
    let b = replay(&events);

    let chat_a = get_chat(&a, "c1").unwrap();
    let chat_b = get_chat(&b, "c1").unwrap();
    assert_eq!(chat_a.messages, chat_b.messages);
    let chat_a2 = get_chat(&a, "c2").unwrap();
    let chat_b2 = get_chat(&b, "c2").unwrap();
    assert_eq!(chat_a2.messages, chat_b2.messages);
    assert_eq!(a.dropped_messages, b.dropped_messages);
    assert_eq!(a.decode_anomalies, b.decode_anomalies);
    assert_eq!(a.last_position, b.last_position);
}

#[test]
fn two_users_two_chats() {
    let mut state = State::new();
    state.handle(&created_event(0, "c1", "u1", "first"));
    state.handle(&created_event(1, "c2", "u1", "second"));
    state.handle(&created_event(2, "c3", "u2", "third"));
    let u1 = get_chats(&state, "u1").unwrap();
    assert_eq!(u1.chats.len(), 2);
    assert_eq!(u1.chats[0].subject, "first");
    assert_eq!(u1.chats[1].subject, "second");
    let u2 = get_chats(&state, "u2").unwrap();
    assert_eq!(u2.chats.len(), 1);
}

#[test]
fn apply_folds_a_decoded_event() {
    let mut state = State::new();
    state.apply(&DomainEvent::ChatCreated(ChatCreatedEvent {
        chat_id: "c1".to_string(),
        user_id: "u1".to_string(),
        subject: "hi".to_string(),
    }));
    state.apply(&DomainEvent::MessageSent(ChatMessageSentEvent {
        chat_id: "c1".to_string(),
        message_id: "m1".to_string(),
        user_id: "u1".to_string(),
        message: "hello".to_string(),
    }));
    let dto = get_chat(&state, "c1").unwrap();
    assert_eq!(dto.messages.len(), 1);
}
