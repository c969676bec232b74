//! Point-in-time queries against the projector's read model.
//!
//! Pure reads: a missing chat or user is a distinct not-found outcome,
//! while an existing chat with no messages yet answers with an empty
//! transcript.

use vstd::prelude::*;

use crate::dtos::Chat;
use crate::dtos::ChatMessage;
use crate::dtos::GetChatDto;
use crate::dtos::GetChatsDto;
use crate::dtos::chats_view;
use crate::dtos::msgs_view;
use crate::projector::State;
use crate::projector::lemma_chats_map_contains;
use crate::projector::lemma_chats_map_idx;
use crate::projector::lemma_users_map_contains;
use crate::projector::lemma_users_map_idx;

verus! {

fn clone_messages(v: &Vec<ChatMessage>) -> (r: Vec<ChatMessage>)
    ensures
        r@ == v@,
{
    let mut r: Vec<ChatMessage> = Vec::new();
    let n = v.len();
    let mut i: usize = 0;
    while i < n
        invariant
            i <= n,
            n == v@.len(),
            r@ == v@.take(i as int),
        decreases n - i,
    {
        let m = &v[i];
        r.push(
            ChatMessage {
                message: m.message.clone(),
                sent_by: m.sent_by.clone(),
                message_id: m.message_id.clone(),
            },
        );
        proof {
            assert(r@ =~= v@.take(i + 1 as int));
        }
        i += 1;
    }
    proof {
        assert(v@.take(n as int) =~= v@);
    }
    r
}

fn clone_chats(v: &Vec<Chat>) -> (r: Vec<Chat>)
    ensures
        r@ == v@,
{
    let mut r: Vec<Chat> = Vec::new();
    let n = v.len();
    let mut i: usize = 0;
    while i < n
        invariant
            i <= n,
            n == v@.len(),
            r@ == v@.take(i as int),
        decreases n - i,
    {
        let c = &v[i];
        r.push(Chat { chat_id: c.chat_id.clone(), subject: c.subject.clone() });
        proof {
            assert(r@ =~= v@.take(i + 1 as int));
        }
        i += 1;
    }
    proof {
        assert(v@.take(n as int) =~= v@);
    }
    r
}

/// Answers one chat's transcript, newest message first, or `None` for a
/// chat id that no creation event has introduced.
pub fn get_chat(state: &State, chat_id: &str) -> (r: Option<GetChatDto>)
    requires
        state.wf(),
    ensures
        match r {
            Some(dto) => state@.chats.contains_key(chat_id@) && dto@ == state@.chats[chat_id@],
            None => !state@.chats.contains_key(chat_id@),
        },
{
    match state.find_chat(chat_id) {
        Some(i) => {
            proof {
                lemma_chats_map_idx(state.chats@, i as int);
            }
            let messages = clone_messages(&state.chats[i].messages);
            proof {
                assert(msgs_view(messages@) == msgs_view(state.chats@[i as int].messages@));
            }
            Some(GetChatDto { messages })
        },
        None => {
            proof {
                lemma_chats_map_contains(state.chats@, chat_id@);
            }
            None
        },
    }
}

/// Answers the chats a user owns, oldest first, or `None` for a user that
/// owns none.
pub fn get_chats(state: &State, user_id: &str) -> (r: Option<GetChatsDto>)
    requires
        state.wf(),
    ensures
        match r {
            Some(dto) => state@.user_chats.contains_key(user_id@) && dto@
                == state@.user_chats[user_id@],
            None => !state@.user_chats.contains_key(user_id@),
        },
{
    match state.find_user(user_id) {
        Some(i) => {
            proof {
                lemma_users_map_idx(state.user_chats@, i as int);
            }
            let chats = clone_chats(&state.user_chats[i].chats);
            proof {
                assert(chats_view(chats@) == chats_view(state.user_chats@[i as int].chats@));
            }
            Some(GetChatsDto { chats })
        },
        None => {
            proof {
                lemma_users_map_contains(state.user_chats@, user_id@);
            }
            None
        },
    }
}

} // verus!
