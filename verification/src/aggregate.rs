//! The command side: validation of incoming requests, identifier
//! derivation, and construction of the events to append.
//!
//! Identifier derivation leans on two outside calls: a random version-4
//! identifier for fresh chats and messages, and a SHA-256 digest for user
//! ids derived from usernames.  Everything around those calls — length
//! validation, error wording, hex rendering, event assembly — is verified.

use vstd::prelude::*;
use vstd::string::*;

use sha2::Digest;

use crate::codec::hex_digit;
use crate::codec::hex_digit_char;
use crate::events::ChatCreatedEvent;
use crate::events::ChatMessageSentEvent;
use crate::strutil::push_char;

verus! {

// ------------------------------------------------------------------
// Outside calls
// ------------------------------------------------------------------

/// The SHA-256 digest of the UTF-8 bytes of a string: 32 bytes that depend
/// on the characters alone.
pub uninterp spec fn sha256_of(s: Seq<char>) -> Seq<u8>;

/// Relies on sha2's `Sha256::digest`: the digest is a function of the
/// input bytes alone and is always 32 bytes long.
#[verifier::external_body]
fn sha256_bytes(s: &str) -> (r: Vec<u8>)
    ensures
        r@ == sha256_of(s@),
        r@.len() == 32,
{
    sha2::Sha256::digest(s.as_bytes()).as_slice().to_vec()
}

/// Relies on uuid's `Uuid::new_v4` and its hyphenated `Display` form: a
/// random identifier rendered as 36 characters.  Nothing is assumed about
/// which characters come back.
#[verifier::external_body]
fn new_uuid() -> (r: String)
    ensures
        r@.len() == 36,
{
    uuid::Uuid::new_v4().to_string()
}

// ------------------------------------------------------------------
// Hex rendering
// ------------------------------------------------------------------

/// The lowercase hex rendering of bytes, two digits per byte.
pub open spec fn hex_of(b: Seq<u8>) -> Seq<char>
    decreases b.len(),
{
    if b.len() == 0 {
        Seq::empty()
    } else {
        hex_of(b.drop_last()) + seq![
            hex_digit_char(b.last() as int / 16),
            hex_digit_char(b.last() as int % 16),
        ]
    }
}

fn to_hex(bytes: &Vec<u8>) -> (r: String)
    ensures
        r@ == hex_of(bytes@),
{
    let mut out = String::new();
    let n = bytes.len();
    let mut i: usize = 0;
    while i < n
        invariant
            i <= n,
            n == bytes@.len(),
            out@ == hex_of(bytes@.take(i as int)),
        decreases n - i,
    {
        let b = bytes[i];
        push_char(&mut out, hex_digit(b / 16));
        push_char(&mut out, hex_digit(b % 16));
        proof {
            assert(bytes@.take(i + 1 as int).drop_last() =~= bytes@.take(i as int));
            assert(bytes@.take(i + 1 as int).last() == b);
            assert(out@ =~= hex_of(bytes@.take(i + 1 as int)));
        }
        i += 1;
    }
    proof {
        assert(bytes@.take(n as int) =~= bytes@);
    }
    out
}

/// The lowercase hex SHA-256 of a string, as the aggregate derives ids.
pub fn hash_string(s: &str) -> (r: String)
    ensures
        r@ == hex_of(sha256_of(s@)),
        r@.len() == 64,
{
    let bytes = sha256_bytes(s);
    proof {
        lemma_hex_of_len(sha256_of(s@));
    }
    to_hex(&bytes)
}

proof fn lemma_hex_of_len(b: Seq<u8>)
    ensures
        hex_of(b).len() == 2 * b.len(),
    decreases b.len(),
{
    if b.len() > 0 {
        lemma_hex_of_len(b.drop_last());
    }
}

/// The same derivation, applied to a username.
pub fn hash_username(username: &str) -> (r: String)
    ensures
        r@ == hex_of(sha256_of(username@)),
        r@.len() == 64,
{
    hash_string(username)
}

// ------------------------------------------------------------------
// Validation
// ------------------------------------------------------------------

/// A username holds between 1 and 36 characters.
pub open spec fn username_ok(s: Seq<char>) -> bool {
    1 <= s.len() <= 36
}

/// A subject holds between 1 and 36 characters.
pub open spec fn subject_ok(s: Seq<char>) -> bool {
    1 <= s.len() <= 36
}

/// A chat id holds exactly 36 characters, the rendered identifier length.
pub open spec fn chat_id_ok(s: Seq<char>) -> bool {
    s.len() == 36
}

/// A sender's user id holds between 1 and 120 characters.
pub open spec fn sender_ok(s: Seq<char>) -> bool {
    1 <= s.len() <= 120
}

/// A chat message holds between 1 and 255 characters.
pub open spec fn message_ok(s: Seq<char>) -> bool {
    1 <= s.len() <= 255
}

/// Failure messages joined one per line.
pub open spec fn join_lines(parts: Seq<Seq<char>>) -> Seq<char>
    decreases parts.len(),
{
    if parts.len() == 0 {
        Seq::empty()
    } else if parts.len() == 1 {
        parts[0]
    } else {
        join_lines(parts.drop_last()) + seq!['\n'] + parts.last()
    }
}

/// Joins failure messages one per line, as the command handlers report
/// them in a single response body.
pub fn join_messages(parts: &Vec<String>) -> (r: String)
    ensures
        r@ == join_lines(parts@.map_values(|s: String| s@)),
{
    let mut out = String::new();
    let n = parts.len();
    let mut i: usize = 0;
    while i < n
        invariant
            i <= n,
            n == parts@.len(),
            out@ == join_lines(parts@.map_values(|s: String| s@).take(i as int)),
        decreases n - i,
    {
        if i > 0 {
            out.append("\n");
            proof {
                reveal_strlit("\n");
                assert("\n"@ =~= seq!['\n']);
            }
        }
        out.append(parts[i].as_str());
        proof {
            let views = parts@.map_values(|s: String| s@);
            assert(views.take(i + 1 as int).drop_last() =~= views.take(i as int));
            assert(views.take(i + 1 as int).last() == parts@[i as int]@);
            if i == 0 {
                assert(out@ =~= join_lines(views.take(1)));
            } else {
                assert(out@ =~= join_lines(views.take(i + 1 as int)));
            }
        }
        i += 1;
    }
    proof {
        assert(parts@.map_values(|s: String| s@).take(n as int) =~= parts@.map_values(
            |s: String| s@,
        ));
    }
    out
}

// ------------------------------------------------------------------
// Commands
// ------------------------------------------------------------------

/// A request to create a chat: a username, a subject, and optionally the
/// caller's already-derived user id.
pub struct CreateChatRequest {
    pub username: String,
    pub subject: String,
    pub user_id: Option<String>,
}

/// A request to send a message to an existing chat.
pub struct SendChatMessageRequest {
    pub chat_id: String,
    pub user_id: String,
    pub message: String,
}

/// The failure messages a create-chat request earns, in field order.
pub open spec fn create_chat_failures(username: Seq<char>, subject: Seq<char>) -> Seq<Seq<char>> {
    let a = if username_ok(username) {
        Seq::empty()
    } else {
        Seq::empty().push("Username must be between 1-36 characters"@)
    };
    if subject_ok(subject) {
        a
    } else {
        a.push("Subject must be between 1-36 characters"@)
    }
}

/// The failure messages a send-message request earns, in field order.
pub open spec fn send_message_failures(
    chat_id: Seq<char>,
    user_id: Seq<char>,
    message: Seq<char>,
) -> Seq<Seq<char>> {
    let a = if chat_id_ok(chat_id) {
        Seq::empty()
    } else {
        Seq::empty().push("Invalid chat ID"@)
    };
    let b = if sender_ok(user_id) {
        a
    } else {
        a.push("User ID must be between 1-120 characters"@)
    };
    if message_ok(message) {
        b
    } else {
        b.push("Chat message must be between 1-255 characters"@)
    }
}

/// Validates a create-chat request and builds the event to append: a fresh
/// 36-character chat id, the caller's user id or one derived by hashing a
/// fresh identifier with the username, and the given subject.
pub fn create_chat(req: &CreateChatRequest) -> (r: Result<ChatCreatedEvent, String>)
    ensures
        r is Ok <==> username_ok(req.username@) && subject_ok(req.subject@),
        r matches Err(msg) ==> msg@ == join_lines(
            create_chat_failures(req.username@, req.subject@),
        ),
        r matches Ok(e) ==> {
            &&& e.chat_id@.len() == 36
            &&& e.subject@ == req.subject@
            &&& match req.user_id {
                Some(u) => e.user_id@ == u@,
                None => exists|salt: Seq<char>|
                    salt.len() == 36 && e.user_id@ == hex_of(sha256_of(salt + req.username@)),
            }
        },
{
    let username_len = req.username.as_str().unicode_len();
    let subject_len = req.subject.as_str().unicode_len();
    let username_good = 1 <= username_len && username_len <= 36;
    let subject_good = 1 <= subject_len && subject_len <= 36;
    if !username_good || !subject_good {
        let mut parts: Vec<String> = Vec::new();
        if !username_good {
            parts.push(String::from_str("Username must be between 1-36 characters"));
        }
        if !subject_good {
            parts.push(String::from_str("Subject must be between 1-36 characters"));
        }
        proof {
            assert(parts@.map_values(|s: String| s@) =~= create_chat_failures(
                req.username@,
                req.subject@,
            ));
        }
        return Err(join_messages(&parts));
    }
    let chat_id = new_uuid();
    let user_id = match &req.user_id {
        Some(u) => u.clone(),
        None => {
            let mut seed = new_uuid();
            let ghost salt = seed@;
            seed.append(req.username.as_str());
            let derived = hash_string(seed.as_str());
            proof {
                assert(salt.len() == 36 && derived@ == hex_of(sha256_of(salt + req.username@)));
            }
            derived
        },
    };
    Ok(ChatCreatedEvent { chat_id, user_id, subject: req.subject.clone() })
}

/// Validates a send-message request and builds the event to append: a
/// fresh 36-character message id and the request's fields.
pub fn send_chat_message(req: &SendChatMessageRequest) -> (r: Result<ChatMessageSentEvent, String>)
    ensures
        r is Ok <==> chat_id_ok(req.chat_id@) && sender_ok(req.user_id@) && message_ok(
            req.message@,
        ),
        r matches Err(msg) ==> msg@ == join_lines(
            send_message_failures(req.chat_id@, req.user_id@, req.message@),
        ),
        r matches Ok(e) ==> {
            &&& e.chat_id@ == req.chat_id@
            &&& e.user_id@ == req.user_id@
            &&& e.message@ == req.message@
            &&& e.message_id@.len() == 36
        },
{
    let chat_id_len = req.chat_id.as_str().unicode_len();
    let user_id_len = req.user_id.as_str().unicode_len();
    let message_len = req.message.as_str().unicode_len();
    let chat_id_good = chat_id_len == 36;
    let user_id_good = 1 <= user_id_len && user_id_len <= 120;
    let message_good = 1 <= message_len && message_len <= 255;
    if !chat_id_good || !user_id_good || !message_good {
        let mut parts: Vec<String> = Vec::new();
        if !chat_id_good {
            parts.push(String::from_str("Invalid chat ID"));
        }
        if !user_id_good {
            parts.push(String::from_str("User ID must be between 1-120 characters"));
        }
        if !message_good {
            parts.push(String::from_str("Chat message must be between 1-255 characters"));
        }
        proof {
            assert(parts@.map_values(|s: String| s@) =~= send_message_failures(
                req.chat_id@,
                req.user_id@,
                req.message@,
            ));
        }
        return Err(join_messages(&parts));
    }
    let message_id = new_uuid();
    Ok(
        ChatMessageSentEvent {
            chat_id: req.chat_id.clone(),
            message_id,
            user_id: req.user_id.clone(),
            message: req.message.clone(),
        },
    )
}

} // verus!
