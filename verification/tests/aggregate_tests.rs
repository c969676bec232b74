use chat_stream::aggregate::create_chat;
use chat_stream::aggregate::hash_string;
use chat_stream::aggregate::hash_username;
use chat_stream::aggregate::join_messages;
use chat_stream::aggregate::send_chat_message;
use chat_stream::aggregate::CreateChatRequest;
use chat_stream::aggregate::SendChatMessageRequest;

#[test]
fn hash_string_is_lowercase_hex_sha256() {
    assert_eq!(
        hash_string("alice"),
        "2bd806c97f0e00af1a1fc3328fa763a9269723c8db8fac4f93af71db186d6e90"
    );
    assert_eq!(
        hash_string("hello world"),
        "b94d27b9934d3e08a52e52d7da7dabfac484efe37a5380ee9088f7ace2efcde9"
    );
}

#[test]
fn hash_username_matches_hash_string() {
    assert_eq!(
        hash_username("bob"),
        "81b637d8fcd2c6da6359e6963113a1170de795e4b725b84d1e0b4cfd9ec58ce9"
    );
    assert_eq!(hash_username("alice"), hash_string("alice"));
}

#[test]
fn join_messages_inserts_newlines() {
    assert_eq!(join_messages(&vec![]), "");
    assert_eq!(join_messages(&vec!["one".to_string()]), "one");
    assert_eq!(
        join_messages(&vec!["one".to_string(), "two".to_string(), "three".to_string()]),
        "one\ntwo\nthree"
    );
}

#[test]
fn create_chat_builds_the_event() {
    let req = CreateChatRequest {
        username: "alice".to_string(),
        subject: "greetings".to_string(),
        user_id: Some("caller-id".to_string()),
    };
    let e = create_chat(&req).expect("a valid request must succeed");
    assert_eq!(e.chat_id.chars().count(), 36);
    assert_eq!(e.user_id, "caller-id");
    assert_eq!(e.subject, "greetings");
}

#[test]
fn create_chat_derives_a_user_id_when_none_is_given() {
    let req = CreateChatRequest {
        username: "alice".to_string(),
        subject: "greetings".to_string(),
        user_id: None,
    };
    let e = create_chat(&req).expect("a valid request must succeed");
    assert_eq!(e.user_id.len(), 64);
    assert!(e.user_id.chars().all(|c| c.is_ascii_hexdigit() && !c.is_ascii_uppercase()));
}

#[test]
fn create_chat_rejects_an_empty_username() {
    let req = CreateChatRequest {
        username: "".to_string(),
        subject: "ok".to_string(),
        user_id: None,
    };
    let err = create_chat(&req).expect_err("an empty username must be rejected");
    assert_eq!(err, "Username must be between 1-36 characters");
}

#[test]
fn create_chat_rejects_an_overlong_subject() {
    let req = CreateChatRequest {
        username: "alice".to_string(),
        subject: "s".repeat(37),
        user_id: None,
    };
    let err = create_chat(&req).expect_err("an overlong subject must be rejected");
    assert_eq!(err, "Subject must be between 1-36 characters");
}

#[test]
fn create_chat_joins_both_failures() {
    let req = CreateChatRequest {
        username: "u".repeat(37),
        subject: "".to_string(),
        user_id: None,
    };
    let err = create_chat(&req).expect_err("two bad fields must be rejected");
    assert_eq!(
        err,
        "Username must be between 1-36 characters\nSubject must be between 1-36 characters"
    );
}

#[test]
fn send_chat_message_builds_the_event() {
    let req = SendChatMessageRequest {
        chat_id: "c".repeat(36),
        user_id: "u1".to_string(),
        message: "hello".to_string(),
    };
    let e = send_chat_message(&req).expect("a valid request must succeed");
    assert_eq!(e.chat_id, "c".repeat(36));
    assert_eq!(e.user_id, "u1");
    assert_eq!(e.message, "hello");
    assert_eq!(e.message_id.chars().count(), 36);
}

#[test]
fn send_chat_message_rejects_a_short_chat_id() {
    let req = SendChatMessageRequest {
        chat_id: "c1".to_string(),
        user_id: "u1".to_string(),
        message: "hello".to_string(),
    };
    let err = send_chat_message(&req).expect_err("a 2-character chat id must be rejected");
    assert_eq!(err, "Invalid chat ID");
}

#[test]
fn send_chat_message_rejects_an_empty_message() {
    let req = SendChatMessageRequest {
        chat_id: "c".repeat(36),
        user_id: "u1".to_string(),
        message: "".to_string(),
    };
    let err = send_chat_message(&req).expect_err("an empty message must be rejected");
    assert_eq!(err, "Chat message must be between 1-255 characters");
}

#[test]
fn send_chat_message_joins_every_failure() {
    let req = SendChatMessageRequest {
        chat_id: "".to_string(),
        user_id: "".to_string(),
        message: "m".repeat(256),
    };
    let err = send_chat_message(&req).expect_err("three bad fields must be rejected");
    assert_eq!(
        err,
        "Invalid chat ID\nUser ID must be between 1-120 characters\nChat message must be between 1-255 characters"
    );
}

#[test]
fn created_chat_id_passes_message_validation() {
    let created = create_chat(&CreateChatRequest {
        username: "alice".to_string(),
        subject: "hi".to_string(),
        user_id: None,
    })
    .unwrap();
    let sent = send_chat_message(&SendChatMessageRequest {
        chat_id: created.chat_id.clone(),
        user_id: created.user_id.clone(),
        message: "first!".to_string(),
    });
    assert!(sent.is_ok());
}
