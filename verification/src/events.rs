//! The domain events of the chat stream and their mathematical views.

use vstd::prelude::*;

verus! {

/// A chat being created, as recorded on the event stream.
#[derive(Debug, Clone)]
pub struct ChatCreatedEvent {
    pub chat_id: String,
    pub user_id: String,
    pub subject: String,
}

/// A message being sent to a chat, as recorded on the event stream.
#[derive(Debug, Clone)]
pub struct ChatMessageSentEvent {
    pub chat_id: String,
    pub message_id: String,
    pub user_id: String,
    pub message: String,
}

/// The closed set of domain events this crate understands.  Dispatch on the
/// stream's type tag resolves to exactly one of these variants; any other
/// tag is an anomaly, never a crash.
#[derive(Debug, Clone)]
pub enum DomainEvent {
    ChatCreated(ChatCreatedEvent),
    MessageSent(ChatMessageSentEvent),
}

/// An event as handed back by the log: a type tag, an opaque payload, and
/// the strictly increasing position the log assigned to it.
#[derive(Debug, Clone)]
pub struct RecordedEvent {
    pub event_type: String,
    pub payload: String,
    pub position: u64,
}

/// Mathematical view of [`ChatCreatedEvent`].
pub struct ChatCreatedView {
    pub chat_id: Seq<char>,
    pub user_id: Seq<char>,
    pub subject: Seq<char>,
}

/// Mathematical view of [`ChatMessageSentEvent`].
pub struct ChatMessageSentView {
    pub chat_id: Seq<char>,
    pub message_id: Seq<char>,
    pub user_id: Seq<char>,
    pub message: Seq<char>,
}

/// Mathematical view of [`DomainEvent`].
pub enum DomainEventView {
    ChatCreated(ChatCreatedView),
    MessageSent(ChatMessageSentView),
}

/// Mathematical view of [`RecordedEvent`].
pub struct RecordedEventView {
    pub event_type: Seq<char>,
    pub payload: Seq<char>,
    pub position: u64,
}

impl View for ChatCreatedEvent {
    type V = ChatCreatedView;

    open spec fn view(&self) -> ChatCreatedView {
        ChatCreatedView {
            chat_id: self.chat_id@,
            user_id: self.user_id@,
            subject: self.subject@,
        }
    }
}

impl View for ChatMessageSentEvent {
    type V = ChatMessageSentView;

    open spec fn view(&self) -> ChatMessageSentView {
        ChatMessageSentView {
            chat_id: self.chat_id@,
            message_id: self.message_id@,
            user_id: self.user_id@,
            message: self.message@,
        }
    }
}

impl View for DomainEvent {
    type V = DomainEventView;

    open spec fn view(&self) -> DomainEventView {
        match self {
            DomainEvent::ChatCreated(e) => DomainEventView::ChatCreated(e@),
            DomainEvent::MessageSent(e) => DomainEventView::MessageSent(e@),
        }
    }
}

impl View for RecordedEvent {
    type V = RecordedEventView;

    open spec fn view(&self) -> RecordedEventView {
        RecordedEventView {
            event_type: self.event_type@,
            payload: self.payload@,
            position: self.position,
        }
    }
}

} // verus!
