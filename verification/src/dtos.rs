//! The data shapes served to clients, with their mathematical views.

use vstd::prelude::*;

verus! {

/// A response that carries no payload.
pub struct Undefined(());

/// An envelope around a response body.
pub struct JsonResponse<T> {
    pub data: T,
    pub message: String,
}

/// One message of a chat transcript.
#[derive(Debug, Clone, Eq, PartialEq)]
pub struct ChatMessage {
    pub message: String,
    pub sent_by: String,
    pub message_id: String,
}

/// The transcript of one chat.  The messages stand newest first: the
/// projector prepends each delivered message, and [`crate::query::get_chat`]
/// returns them in that stored order.
#[derive(Debug, Clone)]
pub struct GetChatDto {
    pub messages: Vec<ChatMessage>,
}

/// The identifiers handed back when a chat is created.
#[derive(Debug, Clone)]
pub struct CreateChatDto {
    pub user_id: String,
    pub chat_id: String,
}

/// One chat as listed for its owner.
#[derive(Debug, Clone)]
pub struct Chat {
    pub chat_id: String,
    pub subject: String,
}

/// The chats owned by one user, oldest first.
#[derive(Debug, Clone)]
pub struct GetChatsDto {
    pub chats: Vec<Chat>,
}

/// Mathematical view of [`ChatMessage`].
pub struct ChatMessageView {
    pub message: Seq<char>,
    pub sent_by: Seq<char>,
    pub message_id: Seq<char>,
}

/// Mathematical view of [`Chat`].
pub struct ChatView {
    pub chat_id: Seq<char>,
    pub subject: Seq<char>,
}

impl View for ChatMessage {
    type V = ChatMessageView;

    open spec fn view(&self) -> ChatMessageView {
        ChatMessageView {
            message: self.message@,
            sent_by: self.sent_by@,
            message_id: self.message_id@,
        }
    }
}

impl View for Chat {
    type V = ChatView;

    open spec fn view(&self) -> ChatView {
        ChatView { chat_id: self.chat_id@, subject: self.subject@ }
    }
}

/// The views of a sequence of messages.
pub open spec fn msgs_view(v: Seq<ChatMessage>) -> Seq<ChatMessageView> {
    v.map_values(|m: ChatMessage| m@)
}

/// The views of a sequence of chats.
pub open spec fn chats_view(v: Seq<Chat>) -> Seq<ChatView> {
    v.map_values(|c: Chat| c@)
}

impl View for GetChatDto {
    type V = Seq<ChatMessageView>;

    open spec fn view(&self) -> Seq<ChatMessageView> {
        msgs_view(self.messages@)
    }
}

impl View for GetChatsDto {
    type V = Seq<ChatView>;

    open spec fn view(&self) -> Seq<ChatView> {
        chats_view(self.chats@)
    }
}

} // verus!
