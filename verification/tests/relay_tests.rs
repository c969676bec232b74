use chat_stream::codec::encode_chat_created;
use chat_stream::codec::encode_message_sent;
use chat_stream::events::ChatCreatedEvent;
use chat_stream::events::ChatMessageSentEvent;
use chat_stream::events::RecordedEvent;
use chat_stream::relay::BroadcastBus;
use chat_stream::relay::ConnectionSession;
use chat_stream::relay::LiveRelay;
use chat_stream::relay::RecvOutcome;

fn msg(chat_id: &str, message_id: &str, user_id: &str, message: &str) -> ChatMessageSentEvent {
    ChatMessageSentEvent {
        chat_id: chat_id.to_string(),
        message_id: message_id.to_string(),
        user_id: user_id.to_string(),
        message: message.to_string(),
    }
}

#[test]
fn one_broadcast_one_matching_session() {
    let mut bus = BroadcastBus::new(100);
    let mut cursor = bus.subscribe();
    bus.publish(msg("A", "m1", "u1", "hello"));

    let session_a = ConnectionSession::new("A".to_string());
    let session_b = ConnectionSession::new("B".to_string());

    let mut delivered_a = 0;
    let mut delivered_b = 0;
    loop {
        match bus.recv(&mut cursor) {
            RecvOutcome::Message(e) => {
                if session_a.on_event(&e).is_some() {
                    delivered_a += 1;
                }
                if session_b.on_event(&e).is_some() {
                    delivered_b += 1;
                }
            }
            RecvOutcome::Lagged(_) => {}
            RecvOutcome::Empty => break,
        }
    }
    assert_eq!(delivered_a, 1);
    assert_eq!(delivered_b, 0);
}

#[test]
fn session_connected_before_broadcast_gets_exactly_the_live_body() {
    let mut bus = BroadcastBus::new(16);
    let session = ConnectionSession::new("c1".to_string());
    let mut cursor = bus.subscribe();

    bus.publish(msg("c1", "m1", "u1", "hello"));

    let mut pushed: Vec<String> = Vec::new();
    loop {
        match bus.recv(&mut cursor) {
            RecvOutcome::Message(e) => {
                if let Some(body) = session.on_event(&e) {
                    pushed.push(body);
                }
            }
            RecvOutcome::Lagged(_) => {}
            RecvOutcome::Empty => break,
        }
    }
    assert_eq!(pushed, vec!["{\"message\":\"hello\",\"message_id\":\"m1\",\"sent_by\":\"u1\"}".to_string()]);
}

#[test]
fn subscriber_sees_only_what_follows_its_subscription() {
    let mut bus = BroadcastBus::new(16);
    bus.publish(msg("c1", "m0", "u1", "before"));
    let mut cursor = bus.subscribe();
    bus.publish(msg("c1", "m1", "u1", "after"));

    match bus.recv(&mut cursor) {
        RecvOutcome::Message(e) => assert_eq!(e.message, "after"),
        _ => panic!("expected the message published after subscribing"),
    }
    assert!(matches!(bus.recv(&mut cursor), RecvOutcome::Empty));
}

#[test]
fn lagging_consumer_is_told_how_much_it_missed() {
    let mut bus = BroadcastBus::new(2);
    let mut cursor = bus.subscribe();
    bus.publish(msg("c1", "m1", "u1", "one"));
    bus.publish(msg("c1", "m2", "u1", "two"));
    bus.publish(msg("c1", "m3", "u1", "three"));

    match bus.recv(&mut cursor) {
        RecvOutcome::Lagged(n) => assert_eq!(n, 1),
        _ => panic!("expected a lag signal"),
    }
    match bus.recv(&mut cursor) {
        RecvOutcome::Message(e) => assert_eq!(e.message, "two"),
        _ => panic!("expected the oldest retained message"),
    }
    match bus.recv(&mut cursor) {
        RecvOutcome::Message(e) => assert_eq!(e.message, "three"),
        _ => panic!("expected the newest message"),
    }
    assert!(matches!(bus.recv(&mut cursor), RecvOutcome::Empty));
}

#[test]
fn relay_broadcasts_only_delivered_messages() {
    let mut relay = LiveRelay::new(100);
    let mut cursor = relay.bus.subscribe();

    let sent = msg("c1", "m1", "u1", "hello");
    let created = ChatCreatedEvent {
        chat_id: "c1".to_string(),
        user_id: "u1".to_string(),
        subject: "hi".to_string(),
    };

    let published = relay.on_recorded(&RecordedEvent {
        event_type: "ChatCreatedEvent".to_string(),
        payload: encode_chat_created(&created),
        position: 0,
    });
    assert!(!published);

    let published = relay.on_recorded(&RecordedEvent {
        event_type: "ChatMessageSentEvent".to_string(),
        payload: encode_message_sent(&sent),
        position: 1,
    });
    assert!(published);

    let published = relay.on_recorded(&RecordedEvent {
        event_type: "ChatMessageSentEvent".to_string(),
        payload: "garbage".to_string(),
        position: 2,
    });
    assert!(!published);

    match relay.bus.recv(&mut cursor) {
        RecvOutcome::Message(e) => {
            assert_eq!(e.chat_id, "c1");
            assert_eq!(e.message, "hello");
        }
        _ => panic!("expected exactly the delivered message"),
    }
    assert!(matches!(relay.bus.recv(&mut cursor), RecvOutcome::Empty));
}

#[test]
fn independent_cursors_see_the_same_messages() {
    let mut bus = BroadcastBus::new(8);
    let mut fast = bus.subscribe();
    let mut slow = bus.subscribe();
    bus.publish(msg("c1", "m1", "u1", "one"));
    bus.publish(msg("c1", "m2", "u1", "two"));

    match bus.recv(&mut fast) {
        RecvOutcome::Message(e) => assert_eq!(e.message_id, "m1"),
        _ => panic!("fast cursor expected m1"),
    }
    match bus.recv(&mut fast) {
        RecvOutcome::Message(e) => assert_eq!(e.message_id, "m2"),
        _ => panic!("fast cursor expected m2"),
    }
    match bus.recv(&mut slow) {
        RecvOutcome::Message(e) => assert_eq!(e.message_id, "m1"),
        _ => panic!("slow cursor expected m1 as well"),
    }
}
