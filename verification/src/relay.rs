//! Live fan-out: one tail subscription feeds an in-process broadcast bus,
//! and each connection session reads the bus through its own cursor,
//! pushing only the messages of its chat.
//!
//! The bus is bounded: a consumer that falls behind the retained window
//! sees how many messages it missed instead of blocking the producer, and
//! continues from the oldest retained message.

use vstd::prelude::*;
use vstd::string::*;

use crate::codec::decode;
use crate::codec::decode_spec;
use crate::codec::encode_live_message;
use crate::codec::live_message_json;
use crate::events::ChatMessageSentEvent;
use crate::events::ChatMessageSentView;
use crate::events::DomainEvent;
use crate::events::DomainEventView;
use crate::events::RecordedEvent;
use crate::strutil::str_eq;

verus! {

/// A bounded single-producer, multi-consumer broadcast bus.  It retains a
/// window of the most recently published messages; every consumer holds an
/// independent [`BusCursor`] into the sequence of all publications.
pub struct BroadcastBus {
    pub entries: Vec<ChatMessageSentEvent>,
    pub next_pos: u64,
    pub capacity: usize,
}

/// One consumer's position in the bus's publication sequence.
pub struct BusCursor {
    pub next: u64,
}

/// What one poll of the bus yields: the next message, a count of messages
/// missed by lagging past the retained window, or nothing yet.
pub enum RecvOutcome {
    Message(ChatMessageSentEvent),
    Lagged(u64),
    Empty,
}

/// Mathematical view of [`BroadcastBus`]: the retained window, oldest
/// first, the count of all messages ever published, and the bound.
pub struct BusView {
    pub entries: Seq<ChatMessageSentView>,
    pub next_pos: u64,
    pub capacity: nat,
}

/// Mathematical view of [`RecvOutcome`].
pub enum RecvOutcomeView {
    Message(ChatMessageSentView),
    Lagged(u64),
    Empty,
}

impl View for BroadcastBus {
    type V = BusView;

    open spec fn view(&self) -> BusView {
        BusView {
            entries: self.entries@.map_values(|e: ChatMessageSentEvent| e@),
            next_pos: self.next_pos,
            capacity: self.capacity as nat,
        }
    }
}

impl View for RecvOutcome {
    type V = RecvOutcomeView;

    open spec fn view(&self) -> RecvOutcomeView {
        match self {
            RecvOutcome::Message(e) => RecvOutcomeView::Message(e@),
            RecvOutcome::Lagged(n) => RecvOutcomeView::Lagged(*n),
            RecvOutcome::Empty => RecvOutcomeView::Empty,
        }
    }
}

impl BusView {
    /// The bus retains no more than its bound, never more messages than
    /// were published, and has room for at least one.
    pub open spec fn wf(&self) -> bool {
        &&& self.entries.len() <= self.capacity
        &&& self.entries.len() <= self.next_pos
        &&& self.capacity >= 1
    }

    /// The publication position of the oldest retained message.
    pub open spec fn head(&self) -> int {
        self.next_pos - self.entries.len()
    }
}

/// Publishing appends to the window, dropping the oldest message once the
/// bound is reached, and never blocks on any consumer.
pub open spec fn spec_publish(v: BusView, e: ChatMessageSentView) -> BusView {
    let kept = if v.entries.len() == v.capacity {
        v.entries.skip(1)
    } else {
        v.entries
    };
    BusView { entries: kept.push(e), next_pos: (v.next_pos + 1) as u64, capacity: v.capacity }
}

/// One poll: a cursor behind the window jumps to its start and reports the
/// miss count; one inside the window takes the next message; one at the
/// end sees nothing yet.
pub open spec fn spec_recv(v: BusView, c: u64) -> (RecvOutcomeView, u64) {
    if (c as int) < v.head() {
        (RecvOutcomeView::Lagged((v.head() - c) as u64), v.head() as u64)
    } else if c < v.next_pos {
        (RecvOutcomeView::Message(v.entries[c - v.head()]), (c + 1) as u64)
    } else {
        (RecvOutcomeView::Empty, c)
    }
}

fn clone_event(e: &ChatMessageSentEvent) -> (r: ChatMessageSentEvent)
    ensures
        r == *e,
{
    ChatMessageSentEvent {
        chat_id: e.chat_id.clone(),
        message_id: e.message_id.clone(),
        user_id: e.user_id.clone(),
        message: e.message.clone(),
    }
}

impl BroadcastBus {
    /// An empty bus with room for `capacity` retained messages.
    pub fn new(capacity: usize) -> (b: BroadcastBus)
        requires
            capacity >= 1,
        ensures
            b@.wf(),
            b@.entries == Seq::<ChatMessageSentView>::empty(),
            b@.next_pos == 0,
            b@.capacity == capacity as nat,
    {
        let b = BroadcastBus { entries: Vec::new(), next_pos: 0, capacity };
        proof {
            assert(b@.entries =~= Seq::<ChatMessageSentView>::empty());
        }
        b
    }

    /// Publishes one message to every current and future cursor within
    /// reach of the window.
    pub fn publish(&mut self, e: ChatMessageSentEvent)
        requires
            old(self)@.wf(),
            old(self).next_pos < u64::MAX,
        ensures
            final(self)@.wf(),
            final(self)@ == spec_publish(old(self)@, e@),
    {
        if self.entries.len() == self.capacity {
            self.entries.remove(0);
            proof {
                assert(self.entries@.map_values(|x: ChatMessageSentEvent| x@) =~= old(
                    self,
                )@.entries.skip(1));
            }
        }
        self.entries.push(e);
        self.next_pos = self.next_pos + 1;
        proof {
            assert(final(self)@.entries =~= spec_publish(old(self)@, e@).entries);
        }
    }

    /// A new consumer cursor, placed at the live end: it sees only what is
    /// published after it subscribes.
    pub fn subscribe(&self) -> (c: BusCursor)
        ensures
            c.next == self.next_pos,
    {
        BusCursor { next: self.next_pos }
    }

    /// Polls the bus on behalf of one cursor.
    pub fn recv(&self, cursor: &mut BusCursor) -> (r: RecvOutcome)
        requires
            self@.wf(),
            old(cursor).next <= self.next_pos,
        ensures
            final(cursor).next <= self.next_pos,
            (r@, final(cursor).next) == spec_recv(self@, old(cursor).next),
    {
        let len = self.entries.len() as u64;
        let head = self.next_pos - len;
        if cursor.next < head {
            let missed = head - cursor.next;
            cursor.next = head;
            RecvOutcome::Lagged(missed)
        } else if cursor.next < self.next_pos {
            let idx = (cursor.next - head) as usize;
            let msg = clone_event(&self.entries[idx]);
            cursor.next = cursor.next + 1;
            RecvOutcome::Message(msg)
        } else {
            RecvOutcome::Empty
        }
    }
}

/// What a session with the given filter pushes for one broadcast message:
/// the live JSON body for its own chat, nothing for any other.
pub open spec fn session_delivers(filter: Seq<char>, e: ChatMessageSentView) -> Option<Seq<char>> {
    if e.chat_id == filter {
        Some(live_message_json(e))
    } else {
        None
    }
}

/// One live client connection: a chat filter over the broadcast bus.  The
/// session owns nothing but its filter; it never touches the read model.
pub struct ConnectionSession {
    pub chat_id: String,
}

impl ConnectionSession {
    /// A session filtered on the chat named by the connection request.
    pub fn new(chat_id: String) -> (s: ConnectionSession)
        ensures
            s.chat_id == chat_id,
    {
        ConnectionSession { chat_id }
    }

    /// The text to push to the client for one broadcast message, or `None`
    /// when the message belongs to another chat.
    pub fn on_event(&self, e: &ChatMessageSentEvent) -> (r: Option<String>)
        ensures
            match r {
                Some(s) => session_delivers(self.chat_id@, e@) == Some(s@),
                None => session_delivers(self.chat_id@, e@) is None,
            },
    {
        if str_eq(self.chat_id.as_str(), e.chat_id.as_str()) {
            Some(encode_live_message(e))
        } else {
            None
        }
    }
}

/// The live relay: the sole producer of the broadcast bus.  It tails the
/// stream from the current end and republishes every delivered message;
/// chat creations and undecodable payloads are not broadcast.
pub struct LiveRelay {
    pub bus: BroadcastBus,
}

impl LiveRelay {
    /// A relay over a fresh bus with the given retained window.
    pub fn new(capacity: usize) -> (r: LiveRelay)
        requires
            capacity >= 1,
        ensures
            r.bus@.wf(),
            r.bus@.entries == Seq::<ChatMessageSentView>::empty(),
            r.bus@.next_pos == 0,
            r.bus@.capacity == capacity as nat,
    {
        LiveRelay { bus: BroadcastBus::new(capacity) }
    }

    /// Decides what one recorded tail event becomes: the message to
    /// broadcast, or nothing for any other decoding outcome.
    pub fn relay_step(event: &RecordedEvent) -> (r: Option<ChatMessageSentEvent>)
        ensures
            match r {
                Some(e) => decode_spec(event.event_type@, event.payload@) == Some(
                    DomainEventView::MessageSent(e@),
                ),
                None => !(decode_spec(event.event_type@, event.payload@) matches Some(
                    DomainEventView::MessageSent(_),
                )),
            },
    {
        match decode(event.event_type.as_str(), event.payload.as_str()) {
            Some(DomainEvent::MessageSent(e)) => Some(e),
            _ => None,
        }
    }

    /// Handles one recorded tail event: broadcasts a delivered message,
    /// ignores everything else.  The caller acknowledges the event upstream
    /// either way.
    pub fn on_recorded(&mut self, event: &RecordedEvent) -> (published: bool)
        requires
            old(self).bus@.wf(),
            old(self).bus.next_pos < u64::MAX,
        ensures
            final(self).bus@.wf(),
            match decode_spec(event.event_type@, event.payload@) {
                Some(DomainEventView::MessageSent(e)) => published && final(self).bus@
                    == spec_publish(old(self).bus@, e),
                _ => !published && final(self).bus@ == old(self).bus@,
            },
    {
        match Self::relay_step(event) {
            Some(e) => {
                self.bus.publish(e);
                true
            },
            None => false,
        }
    }
}

// ------------------------------------------------------------------
// Law of the fan-out
// ------------------------------------------------------------------

/// Law: after one message is broadcast, a cursor subscribed beforehand
/// yields exactly that message and then nothing; a session filtered on the
/// message's chat pushes exactly its live body, and a session filtered on
/// any other chat pushes nothing.
pub proof fn lemma_single_broadcast_fanout(v: BusView, e: ChatMessageSentView, other: Seq<char>)
    requires
        v.wf(),
        v.next_pos < u64::MAX,
        other != e.chat_id,
    ensures
        ({
            let c = v.next_pos;
            let v1 = spec_publish(v, e);
            &&& spec_recv(v1, c) == (RecvOutcomeView::Message(e), (c + 1) as u64)
            &&& spec_recv(v1, (c + 1) as u64).0 == RecvOutcomeView::Empty
            &&& session_delivers(e.chat_id, e) == Some(live_message_json(e))
            &&& session_delivers(other, e) is None
        }),
{
    let c = v.next_pos;
    let v1 = spec_publish(v, e);
    assert(v1.entries.len() >= 1);
    assert(v1.head() <= c as int);
    assert(v1.entries[c - v1.head()] == e);
}

} // verus!
