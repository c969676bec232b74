//! The projector: a deterministic fold of the event stream into an
//! in-memory read model.
//!
//! The model maps each chat to its messages (newest first) and each user to
//! the chats they own (oldest first).  The fold tolerates at-least-once
//! redelivery by skipping any event whose stream position does not exceed
//! the last one folded, drops a message for an unknown chat as a recorded
//! anomaly, and treats a chat created twice as a no-op rather than wiping
//! the transcript.

use vstd::prelude::*;
use vstd::string::*;

use crate::codec::decode;
use crate::codec::decode_spec;
use crate::dtos::Chat;
use crate::dtos::ChatMessage;
use crate::dtos::ChatMessageView;
use crate::dtos::ChatView;
use crate::dtos::chats_view;
use crate::dtos::msgs_view;
use crate::events::ChatCreatedEvent;
use crate::events::ChatCreatedView;
use crate::events::ChatMessageSentEvent;
use crate::events::ChatMessageSentView;
use crate::events::DomainEvent;
use crate::events::DomainEventView;
use crate::events::RecordedEvent;
use crate::events::RecordedEventView;
use crate::strutil::str_eq;

verus! {

/// One chat's transcript, keyed by its id.
pub struct ChatBucket {
    pub chat_id: String,
    pub messages: Vec<ChatMessage>,
}

/// One user's chats, keyed by the user's id.
pub struct UserChats {
    pub user_id: String,
    pub chats: Vec<Chat>,
}

/// The projector's read model together with its fold bookkeeping.
pub struct State {
    pub chats: Vec<ChatBucket>,
    pub user_chats: Vec<UserChats>,
    pub last_position: Option<u64>,
    pub decode_anomalies: u64,
    pub dropped_messages: u64,
}

/// Mathematical view of [`State`].
pub struct StateView {
    pub chats: Map<Seq<char>, Seq<ChatMessageView>>,
    pub user_chats: Map<Seq<char>, Seq<ChatView>>,
    pub last_position: Option<u64>,
    pub decode_anomalies: u64,
    pub dropped_messages: u64,
}

/// The chat map an association list denotes.
pub open spec fn chats_map(bs: Seq<ChatBucket>) -> Map<Seq<char>, Seq<ChatMessageView>>
    decreases bs.len(),
{
    if bs.len() == 0 {
        Map::empty()
    } else {
        chats_map(bs.drop_last()).insert(bs.last().chat_id@, msgs_view(bs.last().messages@))
    }
}

/// The user map an association list denotes.
pub open spec fn users_map(us: Seq<UserChats>) -> Map<Seq<char>, Seq<ChatView>>
    decreases us.len(),
{
    if us.len() == 0 {
        Map::empty()
    } else {
        users_map(us.drop_last()).insert(us.last().user_id@, chats_view(us.last().chats@))
    }
}

/// The chat ids of an association list are distinct.
pub open spec fn buckets_wf(bs: Seq<ChatBucket>) -> bool {
    forall|i: int, j: int| 0 <= i < j < bs.len() ==> bs[i].chat_id@ != bs[j].chat_id@
}

/// The user ids of an association list are distinct.
pub open spec fn users_wf(us: Seq<UserChats>) -> bool {
    forall|i: int, j: int| 0 <= i < j < us.len() ==> us[i].user_id@ != us[j].user_id@
}

impl State {
    /// Both association lists have distinct keys.
    pub open spec fn wf(&self) -> bool {
        buckets_wf(self.chats@) && users_wf(self.user_chats@)
    }
}

impl View for State {
    type V = StateView;

    open spec fn view(&self) -> StateView {
        StateView {
            chats: chats_map(self.chats@),
            user_chats: users_map(self.user_chats@),
            last_position: self.last_position,
            decode_anomalies: self.decode_anomalies,
            dropped_messages: self.dropped_messages,
        }
    }
}

// ------------------------------------------------------------------
// Association lists against the maps they denote
// ------------------------------------------------------------------

pub(crate) proof fn lemma_chats_map_contains(bs: Seq<ChatBucket>, k: Seq<char>)
    ensures
        chats_map(bs).contains_key(k) <==> exists|i: int|
            0 <= i < bs.len() && bs[i].chat_id@ == k,
    decreases bs.len(),
{
    if bs.len() > 0 {
        let pre = bs.drop_last();
        lemma_chats_map_contains(pre, k);
        if bs.last().chat_id@ == k {
            assert(bs[bs.len() - 1].chat_id@ == k);
        } else {
            if chats_map(bs).contains_key(k) {
                let i = choose|i: int| 0 <= i < pre.len() && pre[i].chat_id@ == k;
                assert(bs[i].chat_id@ == k);
            }
            if exists|i: int| 0 <= i < bs.len() && bs[i].chat_id@ == k {
                let i = choose|i: int| 0 <= i < bs.len() && bs[i].chat_id@ == k;
                assert(pre[i].chat_id@ == k);
            }
        }
    }
}

pub(crate) proof fn lemma_chats_map_idx(bs: Seq<ChatBucket>, i: int)
    requires
        buckets_wf(bs),
        0 <= i < bs.len(),
    ensures
        chats_map(bs).contains_key(bs[i].chat_id@),
        chats_map(bs)[bs[i].chat_id@] == msgs_view(bs[i].messages@),
    decreases bs.len(),
{
    if i < bs.len() - 1 {
        let pre = bs.drop_last();
        assert(buckets_wf(pre));
        lemma_chats_map_idx(pre, i);
        assert(bs.last().chat_id@ != bs[i].chat_id@);
    }
}

proof fn lemma_chats_map_push(bs: Seq<ChatBucket>, b: ChatBucket)
    ensures
        chats_map(bs.push(b)) == chats_map(bs).insert(b.chat_id@, msgs_view(b.messages@)),
{
    assert(bs.push(b).drop_last() =~= bs);
    assert(bs.push(b).last() == b);
}

proof fn lemma_chats_map_update(bs: Seq<ChatBucket>, i: int, b: ChatBucket)
    requires
        buckets_wf(bs),
        0 <= i < bs.len(),
        b.chat_id@ == bs[i].chat_id@,
    ensures
        chats_map(bs.update(i, b)) == chats_map(bs).insert(b.chat_id@, msgs_view(b.messages@)),
    decreases bs.len(),
{
    let bs2 = bs.update(i, b);
    if i == bs.len() - 1 {
        assert(bs2.drop_last() =~= bs.drop_last());
        assert(bs2.last() == b);
        assert(chats_map(bs).insert(b.chat_id@, msgs_view(b.messages@)) =~= chats_map(
            bs.drop_last(),
        ).insert(b.chat_id@, msgs_view(b.messages@)));
    } else {
        let pre = bs.drop_last();
        assert(buckets_wf(pre));
        lemma_chats_map_update(pre, i, b);
        assert(bs2.drop_last() =~= pre.update(i, b));
        assert(bs2.last() == bs.last());
        assert(bs.last().chat_id@ != b.chat_id@);
        assert(chats_map(pre).insert(b.chat_id@, msgs_view(b.messages@)).insert(
            bs.last().chat_id@,
            msgs_view(bs.last().messages@),
        ) =~= chats_map(bs).insert(b.chat_id@, msgs_view(b.messages@)));
    }
}

pub(crate) proof fn lemma_users_map_contains(us: Seq<UserChats>, k: Seq<char>)
    ensures
        users_map(us).contains_key(k) <==> exists|i: int|
            0 <= i < us.len() && us[i].user_id@ == k,
    decreases us.len(),
{
    if us.len() > 0 {
        let pre = us.drop_last();
        lemma_users_map_contains(pre, k);
        if us.last().user_id@ == k {
            assert(us[us.len() - 1].user_id@ == k);
        } else {
            if users_map(us).contains_key(k) {
                let i = choose|i: int| 0 <= i < pre.len() && pre[i].user_id@ == k;
                assert(us[i].user_id@ == k);
            }
            if exists|i: int| 0 <= i < us.len() && us[i].user_id@ == k {
                let i = choose|i: int| 0 <= i < us.len() && us[i].user_id@ == k;
                assert(pre[i].user_id@ == k);
            }
        }
    }
}

pub(crate) proof fn lemma_users_map_idx(us: Seq<UserChats>, i: int)
    requires
        users_wf(us),
        0 <= i < us.len(),
    ensures
        users_map(us).contains_key(us[i].user_id@),
        users_map(us)[us[i].user_id@] == chats_view(us[i].chats@),
    decreases us.len(),
{
    if i < us.len() - 1 {
        let pre = us.drop_last();
        assert(users_wf(pre));
        lemma_users_map_idx(pre, i);
        assert(us.last().user_id@ != us[i].user_id@);
    }
}

proof fn lemma_users_map_push(us: Seq<UserChats>, u: UserChats)
    ensures
        users_map(us.push(u)) == users_map(us).insert(u.user_id@, chats_view(u.chats@)),
{
    assert(us.push(u).drop_last() =~= us);
    assert(us.push(u).last() == u);
}

proof fn lemma_users_map_update(us: Seq<UserChats>, i: int, u: UserChats)
    requires
        users_wf(us),
        0 <= i < us.len(),
        u.user_id@ == us[i].user_id@,
    ensures
        users_map(us.update(i, u)) == users_map(us).insert(u.user_id@, chats_view(u.chats@)),
    decreases us.len(),
{
    let us2 = us.update(i, u);
    if i == us.len() - 1 {
        assert(us2.drop_last() =~= us.drop_last());
        assert(us2.last() == u);
        assert(users_map(us).insert(u.user_id@, chats_view(u.chats@)) =~= users_map(
            us.drop_last(),
        ).insert(u.user_id@, chats_view(u.chats@)));
    } else {
        let pre = us.drop_last();
        assert(users_wf(pre));
        lemma_users_map_update(pre, i, u);
        assert(us2.drop_last() =~= pre.update(i, u));
        assert(us2.last() == us.last());
        assert(us.last().user_id@ != u.user_id@);
        assert(users_map(pre).insert(u.user_id@, chats_view(u.chats@)).insert(
            us.last().user_id@,
            chats_view(us.last().chats@),
        ) =~= users_map(us).insert(u.user_id@, chats_view(u.chats@)));
    }
}

// ------------------------------------------------------------------
// The fold, stated
// ------------------------------------------------------------------

/// The read model before any event.
pub open spec fn init_state() -> StateView {
    StateView {
        chats: Map::empty(),
        user_chats: Map::empty(),
        last_position: None,
        decode_anomalies: 0,
        dropped_messages: 0,
    }
}

/// One more, stopping at the counter's ceiling.
pub open spec fn sat_inc(x: u64) -> u64 {
    if x == u64::MAX {
        x
    } else {
        (x + 1) as u64
    }
}

/// Folding a chat creation: a fresh chat gains an empty transcript and a
/// place in its owner's list; a chat id seen before changes nothing.
pub open spec fn spec_apply_created(m: StateView, e: ChatCreatedView) -> StateView {
    if m.chats.contains_key(e.chat_id) {
        m
    } else {
        let prior = if m.user_chats.contains_key(e.user_id) {
            m.user_chats[e.user_id]
        } else {
            Seq::empty()
        };
        StateView {
            chats: m.chats.insert(e.chat_id, Seq::empty()),
            user_chats: m.user_chats.insert(
                e.user_id,
                prior.push(ChatView { chat_id: e.chat_id, subject: e.subject }),
            ),
            ..m
        }
    }
}

/// Folding a delivered message: prepended to a known chat's transcript,
/// counted as a dropped anomaly for an unknown one.
pub open spec fn spec_apply_message(m: StateView, e: ChatMessageSentView) -> StateView {
    if m.chats.contains_key(e.chat_id) {
        let msg = ChatMessageView { message: e.message, sent_by: e.user_id, message_id: e.message_id };
        StateView { chats: m.chats.insert(e.chat_id, seq![msg] + m.chats[e.chat_id]), ..m }
    } else {
        StateView { dropped_messages: sat_inc(m.dropped_messages), ..m }
    }
}

/// Folding one decoded event.
pub open spec fn spec_apply(m: StateView, ev: DomainEventView) -> StateView {
    match ev {
        DomainEventView::ChatCreated(e) => spec_apply_created(m, e),
        DomainEventView::MessageSent(e) => spec_apply_message(m, e),
    }
}

/// Folding one recorded event: an already-covered position is skipped, an
/// undecodable payload is counted and skipped, a decoded event is applied.
pub open spec fn spec_handle(m: StateView, r: RecordedEventView) -> StateView {
    let dup = match m.last_position {
        Some(p) => r.position <= p,
        None => false,
    };
    if dup {
        m
    } else {
        let m1 = StateView { last_position: Some(r.position), ..m };
        match decode_spec(r.event_type, r.payload) {
            Some(ev) => spec_apply(m1, ev),
            None => StateView { decode_anomalies: sat_inc(m1.decode_anomalies), ..m1 },
        }
    }
}

/// The views of a sequence of recorded events.
pub open spec fn events_view(rs: Seq<RecordedEvent>) -> Seq<RecordedEventView> {
    rs.map_values(|r: RecordedEvent| r@)
}

/// The read model after folding a whole stream from the beginning.
pub open spec fn spec_replay(rs: Seq<RecordedEventView>) -> StateView
    decreases rs.len(),
{
    if rs.len() == 0 {
        init_state()
    } else {
        spec_handle(spec_replay(rs.drop_last()), rs.last())
    }
}

// ------------------------------------------------------------------
// The fold, executed
// ------------------------------------------------------------------

impl State {
    /// An empty read model.
    pub fn new() -> (s: State)
        ensures
            s.wf(),
            s@ == init_state(),
    {
        let s = State {
            chats: Vec::new(),
            user_chats: Vec::new(),
            last_position: None,
            decode_anomalies: 0,
            dropped_messages: 0,
        };
        proof {
            assert(s@.chats =~= init_state().chats);
            assert(s@.user_chats =~= init_state().user_chats);
        }
        s
    }

    pub(crate) fn find_chat(&self, chat_id: &str) -> (r: Option<usize>)
        ensures
            match r {
                Some(i) => i < self.chats@.len() && self.chats@[i as int].chat_id@ == chat_id@,
                None => forall|i: int|
                    0 <= i < self.chats@.len() ==> self.chats@[i].chat_id@ != chat_id@,
            },
    {
        let n = self.chats.len();
        let mut i: usize = 0;
        while i < n
            invariant
                i <= n,
                n == self.chats@.len(),
                forall|j: int| 0 <= j < i ==> self.chats@[j].chat_id@ != chat_id@,
            decreases n - i,
        {
            if str_eq(self.chats[i].chat_id.as_str(), chat_id) {
                return Some(i);
            }
            i += 1;
        }
        None
    }

    pub(crate) fn find_user(&self, user_id: &str) -> (r: Option<usize>)
        ensures
            match r {
                Some(i) => i < self.user_chats@.len() && self.user_chats@[i as int].user_id@
                    == user_id@,
                None => forall|i: int|
                    0 <= i < self.user_chats@.len() ==> self.user_chats@[i].user_id@ != user_id@,
            },
    {
        let n = self.user_chats.len();
        let mut i: usize = 0;
        while i < n
            invariant
                i <= n,
                n == self.user_chats@.len(),
                forall|j: int| 0 <= j < i ==> self.user_chats@[j].user_id@ != user_id@,
            decreases n - i,
        {
            if str_eq(self.user_chats[i].user_id.as_str(), user_id) {
                return Some(i);
            }
            i += 1;
        }
        None
    }

    /// Folds a chat creation into the model.
    pub fn apply_created(&mut self, e: &ChatCreatedEvent)
        requires
            old(self).wf(),
        ensures
            final(self).wf(),
            final(self)@ == spec_apply_created(old(self)@, e@),
    {
        match self.find_chat(e.chat_id.as_str()) {
            Some(i) => {
                proof {
                    lemma_chats_map_idx(self.chats@, i as int);
                }
            },
            None => {
                proof {
                    lemma_chats_map_contains(self.chats@, e.chat_id@);
                }
                let bucket = ChatBucket { chat_id: e.chat_id.clone(), messages: Vec::new() };
                proof {
                    lemma_chats_map_push(self.chats@, bucket);
                }
                self.chats.push(bucket);
                proof {
                    assert(msgs_view(Seq::<ChatMessage>::empty()) =~= Seq::<
                        ChatMessageView,
                    >::empty());
                    assert(buckets_wf(self.chats@));
                }
                let chat = Chat { chat_id: e.chat_id.clone(), subject: e.subject.clone() };
                match self.find_user(e.user_id.as_str()) {
                    Some(i) => {
                        proof {
                            lemma_users_map_idx(self.user_chats@, i as int);
                        }
                        let ghost old_users = self.user_chats@;
                        let mut uc = self.user_chats.remove(i);
                        uc.chats.push(chat);
                        self.user_chats.insert(i, uc);
                        proof {
                            assert(self.user_chats@ =~= old_users.update(
                                i as int,
                                self.user_chats@[i as int],
                            ));
                            assert(chats_view(self.user_chats@[i as int].chats@) =~= chats_view(
                                old_users[i as int].chats@,
                            ).push(ChatView { chat_id: e.chat_id@, subject: e.subject@ }));
                            lemma_users_map_update(
                                old_users,
                                i as int,
                                self.user_chats@[i as int],
                            );
                            assert(users_wf(self.user_chats@));
                        }
                    },
                    None => {
                        proof {
                            lemma_users_map_contains(self.user_chats@, e.user_id@);
                        }
                        let mut chats: Vec<Chat> = Vec::new();
                        chats.push(chat);
                        let uc = UserChats { user_id: e.user_id.clone(), chats };
                        proof {
                            lemma_users_map_push(self.user_chats@, uc);
                            assert(chats_view(uc.chats@) =~= Seq::<ChatView>::empty().push(
                                ChatView { chat_id: e.chat_id@, subject: e.subject@ },
                            ));
                        }
                        self.user_chats.push(uc);
                        proof {
                            assert(users_wf(self.user_chats@));
                        }
                    },
                }
            },
        }
    }

    /// Folds a delivered message into the model.
    pub fn apply_message(&mut self, e: &ChatMessageSentEvent)
        requires
            old(self).wf(),
        ensures
            final(self).wf(),
            final(self)@ == spec_apply_message(old(self)@, e@),
    {
        match self.find_chat(e.chat_id.as_str()) {
            Some(i) => {
                proof {
                    lemma_chats_map_idx(self.chats@, i as int);
                }
                let ghost old_chats = self.chats@;
                let mut b = self.chats.remove(i);
                let ghost old_msgs = b.messages@;
                b.messages.insert(
                    0,
                    ChatMessage {
                        message: e.message.clone(),
                        sent_by: e.user_id.clone(),
                        message_id: e.message_id.clone(),
                    },
                );
                self.chats.insert(i, b);
                proof {
                    assert(self.chats@ =~= old_chats.update(i as int, self.chats@[i as int]));
                    assert(msgs_view(self.chats@[i as int].messages@) =~= seq![
                        ChatMessageView {
                            message: e.message@,
                            sent_by: e.user_id@,
                            message_id: e.message_id@,
                        },
                    ] + msgs_view(old_msgs));
                    lemma_chats_map_update(old_chats, i as int, self.chats@[i as int]);
                    assert(buckets_wf(self.chats@));
                }
            },
            None => {
                proof {
                    lemma_chats_map_contains(self.chats@, e.chat_id@);
                }
                if self.dropped_messages != u64::MAX {
                    self.dropped_messages = self.dropped_messages + 1;
                }
            },
        }
    }

    /// Folds one decoded event into the model.
    pub fn apply(&mut self, ev: &DomainEvent)
        requires
            old(self).wf(),
        ensures
            final(self).wf(),
            final(self)@ == spec_apply(old(self)@, ev@),
    {
        match ev {
            DomainEvent::ChatCreated(e) => self.apply_created(e),
            DomainEvent::MessageSent(e) => self.apply_message(e),
        }
    }

    /// Folds one recorded event: skips an already-covered position, counts
    /// an undecodable payload, applies a decoded event.  Never fails.
    pub fn handle(&mut self, event: &RecordedEvent)
        requires
            old(self).wf(),
        ensures
            final(self).wf(),
            final(self)@ == spec_handle(old(self)@, event@),
    {
        let dup = match self.last_position {
            Some(p) => event.position <= p,
            None => false,
        };
        if dup {
            return ;
        }
        self.last_position = Some(event.position);
        match decode(event.event_type.as_str(), event.payload.as_str()) {
            Some(ev) => self.apply(&ev),
            None => {
                if self.decode_anomalies != u64::MAX {
                    self.decode_anomalies = self.decode_anomalies + 1;
                }
            },
        }
    }
}

/// Folds a whole stream from the beginning into a fresh model.
pub fn replay(events: &Vec<RecordedEvent>) -> (s: State)
    ensures
        s.wf(),
        s@ == spec_replay(events_view(events@)),
{
    let mut s = State::new();
    let n = events.len();
    let mut i: usize = 0;
    proof {
        assert(events_view(events@.take(0)) =~= Seq::<RecordedEventView>::empty());
    }
    while i < n
        invariant
            i <= n,
            n == events@.len(),
            s.wf(),
            s@ == spec_replay(events_view(events@.take(i as int))),
        decreases n - i,
    {
        s.handle(&events[i]);
        proof {
            let prefix = events_view(events@.take(i + 1 as int));
            assert(prefix.drop_last() =~= events_view(events@.take(i as int)));
            assert(prefix.last() == events@[i as int]@);
        }
        i += 1;
    }
    proof {
        assert(events@.take(n as int) =~= events@);
    }
    s
}

// ------------------------------------------------------------------
// Laws of the fold
// ------------------------------------------------------------------

/// Law: replay is deterministic — any two replays of equal event sequences
/// yield equal read models, so two independent projector instances agree.
pub proof fn lemma_replay_deterministic(a: Seq<RecordedEventView>, b: Seq<RecordedEventView>)
    requires
        a == b,
    ensures
        spec_replay(a) == spec_replay(b),
{
}

/// Law: a message for a chat that no creation has introduced changes no
/// transcript — the chat stays absent — and is counted as dropped.
pub proof fn lemma_orphan_message_dropped(m: StateView, e: ChatMessageSentView)
    requires
        !m.chats.contains_key(e.chat_id),
    ensures
        spec_apply_message(m, e).chats == m.chats,
        !spec_apply_message(m, e).chats.contains_key(e.chat_id),
        spec_apply_message(m, e).user_chats == m.user_chats,
        spec_apply_message(m, e).dropped_messages == sat_inc(m.dropped_messages),
{
}

/// Law: handling the same recorded event again is a no-op — redelivery
/// under at-least-once semantics never duplicates a fold.
pub proof fn lemma_handle_idempotent(m: StateView, r: RecordedEventView)
    ensures
        spec_handle(spec_handle(m, r), r) == spec_handle(m, r),
{
}

/// Law: a chat id that no decoded creation event mentions is absent from
/// the replayed read model, whatever else the stream holds.
pub proof fn lemma_unreferenced_chat_absent(rs: Seq<RecordedEventView>, chat_id: Seq<char>)
    requires
        forall|i: int| 0 <= i < rs.len() ==> !references_chat(rs[i], chat_id),
    ensures
        !spec_replay(rs).chats.contains_key(chat_id),
    decreases rs.len(),
{
    if rs.len() > 0 {
        let pre = rs.drop_last();
        assert(forall|i: int| 0 <= i < pre.len() ==> !references_chat(pre[i], chat_id));
        lemma_unreferenced_chat_absent(pre, chat_id);
        assert(!references_chat(rs[rs.len() - 1], chat_id));
    }
}

/// Whether a recorded event decodes to a creation of the given chat.
pub open spec fn references_chat(r: RecordedEventView, chat_id: Seq<char>) -> bool {
    match decode_spec(r.event_type, r.payload) {
        Some(DomainEventView::ChatCreated(e)) => e.chat_id == chat_id,
        _ => false,
    }
}

} // verus!
