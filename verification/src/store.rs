//! The session store: the sole owner of all live conversations, with
//! create, read, append, list and age-based eviction.
use vstd::prelude::*;
use crate::model::{Chat, ChatError, ChatView, Message, MessageRole, MessageView, new_chat_view};

verus! {

/// Sessions inactive for longer than this many seconds are swept away
/// by the retention sweeper (24 hours, measured against last activity).
pub const DEFAULT_MAX_AGE_SECS: i64 = 86400;

/// No two live sessions share an identifier.
pub open spec fn ids_unique(s: Seq<ChatView>) -> bool {
    forall|i: int, j: int| 0 <= i < j < s.len() ==> s[i].id != s[j].id
}

/// Every session's activity timestamp is at or after its creation.
pub open spec fn all_wf(s: Seq<ChatView>) -> bool {
    forall|i: int| 0 <= i < s.len() ==> (#[trigger] s[i]).wf()
}

/// Whether a session with identifier `id` is live in the store.
pub open spec fn has_chat(s: Seq<ChatView>, id: u128) -> bool {
    exists|i: int| 0 <= i < s.len() && s[i].id == id
}

/// The position of the session with identifier `id`; meaningful only when
/// `has_chat(s, id)` holds (and then unique, given `ids_unique`).
pub open spec fn chat_index(s: Seq<ChatView>, id: u128) -> int {
    choose|i: int| 0 <= i < s.len() && s[i].id == id
}

/// The live session with identifier `id`.
pub open spec fn chat_of(s: Seq<ChatView>, id: u128) -> ChatView {
    s[chat_index(s, id)]
}

/// The store after appending turn `m` to the session `id`.
pub open spec fn store_append(s: Seq<ChatView>, id: u128, m: MessageView) -> Seq<ChatView> {
    s.update(chat_index(s, id), chat_of(s, id).with_message(m))
}

/// With unique identifiers, any position holding `id` is the position of
/// the session `id`.
pub proof fn lemma_chat_index_is(s: Seq<ChatView>, id: u128, i: int)
    requires
        ids_unique(s),
        0 <= i < s.len(),
        s[i].id == id,
    ensures
        has_chat(s, id),
        chat_index(s, id) == i,
        chat_of(s, id) == s[i],
{
    assert(has_chat(s, id));
    let j = chat_index(s, id);
    assert(0 <= j < s.len() && s[j].id == id);
    if i < j {
        assert(s[i].id != s[j].id);
    } else if j < i {
        assert(s[j].id != s[i].id);
    }
}

/// Appending an element reaches exactly the identifiers reached before,
/// plus the new element's.
pub proof fn lemma_has_chat_push(s: Seq<ChatView>, c: ChatView, id: u128)
    ensures
        has_chat(s.push(c), id) <==> (has_chat(s, id) || c.id == id),
{
    if has_chat(s.push(c), id) {
        let i = choose|i: int| 0 <= i < s.push(c).len() && s.push(c)[i].id == id;
        if i < s.len() {
            assert(s[i].id == id);
        } else {
            assert(s.push(c)[i] == c);
        }
    }
    if has_chat(s, id) {
        let i = choose|i: int| 0 <= i < s.len() && s[i].id == id;
        assert(s.push(c)[i].id == id);
    }
    if c.id == id {
        assert(s.push(c)[s.len() as int].id == id);
    }
}

/// Isolation: appending a turn to the session `id` leaves every other
/// session exactly as it was — live sessions stay live under the same view,
/// absent ones stay absent — while the session `id` itself gains exactly
/// that one turn.
pub proof fn lemma_append_isolation(s: Seq<ChatView>, id: u128, m: MessageView)
    requires
        ids_unique(s),
        has_chat(s, id),
    ensures
        ids_unique(store_append(s, id, m)),
        store_append(s, id, m).len() == s.len(),
        has_chat(store_append(s, id, m), id),
        chat_of(store_append(s, id, m), id) == chat_of(s, id).with_message(m),
        forall|other: u128| other != id ==> (#[trigger] has_chat(store_append(s, id, m), other)
            <==> has_chat(s, other)),
        forall|other: u128| other != id && has_chat(s, other) ==> #[trigger] chat_of(
            store_append(s, id, m),
            other,
        ) == chat_of(s, other),
{
    let i = chat_index(s, id);
    assert(0 <= i < s.len() && s[i].id == id);
    let s2 = store_append(s, id, m);
    assert(s2 == s.update(i, chat_of(s, id).with_message(m)));
    assert forall|k: int| 0 <= k < s2.len() implies s2[k].id == s[k].id by {}
    assert(ids_unique(s2));
    lemma_chat_index_is(s2, id, i);
    assert forall|other: u128| other != id implies (#[trigger] has_chat(s2, other) <==> has_chat(
        s,
        other,
    )) by {
        if has_chat(s2, other) {
            let k = choose|k: int| 0 <= k < s2.len() && s2[k].id == other;
            assert(s[k].id == other);
        }
        if has_chat(s, other) {
            let k = choose|k: int| 0 <= k < s.len() && s[k].id == other;
            assert(s2[k].id == other);
        }
    }
    assert forall|other: u128| other != id && has_chat(s, other) implies #[trigger] chat_of(
        s2,
        other,
    ) == chat_of(s, other) by {
        let k = chat_index(s, other);
        assert(0 <= k < s.len() && s[k].id == other);
        assert(k != i);
        assert(s2[k] == s[k]);
        lemma_chat_index_is(s2, other, k);
    }
}

/// All the turns of a run of appends to one session, applied in order.
pub open spec fn append_all(s: Seq<ChatView>, id: u128, msgs: Seq<MessageView>) -> Seq<ChatView>
    decreases msgs.len(),
{
    if msgs.len() == 0 {
        s
    } else {
        store_append(append_all(s, id, msgs.drop_last()), id, msgs.last())
    }
}

/// Append ordering: a run of appends to one session grows its history by
/// exactly those turns, in order; after any prefix of the run the history
/// length has grown by exactly the prefix's length (so each append reports
/// a distinct length); and the final activity timestamp is the latest
/// timestamp among the appended turns, unless all of them lag the session's
/// earlier activity, which then stands.
pub proof fn lemma_append_ordering(s: Seq<ChatView>, id: u128, msgs: Seq<MessageView>)
    requires
        ids_unique(s),
        has_chat(s, id),
    ensures
        ids_unique(append_all(s, id, msgs)),
        has_chat(append_all(s, id, msgs), id),
        chat_of(append_all(s, id, msgs), id).messages == chat_of(s, id).messages + msgs,
        forall|k: int| 0 <= k <= msgs.len() ==> #[trigger] chat_of(
            append_all(s, id, msgs.take(k)),
            id,
        ).messages.len() == chat_of(s, id).messages.len() + k,
        forall|k: int| 0 <= k < msgs.len() ==> chat_of(append_all(s, id, msgs), id).last_updated
            >= msgs[k].timestamp,
        chat_of(append_all(s, id, msgs), id).last_updated >= chat_of(s, id).last_updated,
        chat_of(append_all(s, id, msgs), id).last_updated == chat_of(s, id).last_updated || exists|
            k: int,
        |
            0 <= k < msgs.len() && msgs[k].timestamp == chat_of(
                append_all(s, id, msgs),
                id,
            ).last_updated,
        forall|other: u128| other != id ==> (#[trigger] has_chat(append_all(s, id, msgs), other)
            <==> has_chat(s, other)),
        forall|other: u128| other != id && has_chat(s, other) ==> #[trigger] chat_of(
            append_all(s, id, msgs),
            other,
        ) == chat_of(s, other),
    decreases msgs.len(),
{
    if msgs.len() == 0 {
        assert(chat_of(s, id).messages + msgs =~= chat_of(s, id).messages);
        assert(msgs.take(0) =~= msgs);
    } else {
        let m0 = msgs.drop_last();
        let m = msgs.last();
        lemma_append_ordering(s, id, m0);
        let mid = append_all(s, id, m0);
        lemma_append_isolation(mid, id, m);
        assert(chat_of(append_all(s, id, msgs), id).messages =~= chat_of(s, id).messages + msgs);
        assert forall|k: int| 0 <= k <= msgs.len() implies #[trigger] chat_of(
            append_all(s, id, msgs.take(k)),
            id,
        ).messages.len() == chat_of(s, id).messages.len() + k by {
            if k < msgs.len() {
                assert(msgs.take(k) =~= m0.take(k));
            } else {
                assert(msgs.take(k) =~= msgs);
                assert(chat_of(append_all(s, id, m0.take(k - 1)), id).messages.len() == chat_of(
                    s,
                    id,
                ).messages.len() + k - 1);
                assert(m0.take(k - 1) =~= m0);
            }
        }
        let fin = chat_of(append_all(s, id, msgs), id).last_updated;
        assert(fin == vstd::math::max(chat_of(mid, id).last_updated, m.timestamp));
        assert forall|k: int| 0 <= k < msgs.len() implies fin >= msgs[k].timestamp by {
            if k < msgs.len() - 1 {
                assert(chat_of(mid, id).last_updated >= m0[k].timestamp);
            }
        }
        if fin != chat_of(s, id).last_updated {
            if fin == m.timestamp {
                assert(msgs[msgs.len() - 1].timestamp == fin);
            } else {
                assert(fin == chat_of(mid, id).last_updated);
                let k = choose|k: int| 0 <= k < m0.len() && m0[k].timestamp == fin;
                assert(msgs[k].timestamp == fin);
            }
        }
    }
}

/// Append ordering, timestamp clause: when every appended turn is at or
/// after the session's prior activity — a monotone clock — the session's
/// final activity timestamp equals the maximum timestamp among the appends:
/// it is one of theirs and no smaller than any of them.
pub proof fn lemma_append_ordering_max_timestamp(
    s: Seq<ChatView>,
    id: u128,
    msgs: Seq<MessageView>,
)
    requires
        ids_unique(s),
        has_chat(s, id),
        msgs.len() > 0,
        forall|k: int| 0 <= k < msgs.len() ==> #[trigger] msgs[k].timestamp >= chat_of(
            s,
            id,
        ).last_updated,
    ensures
        forall|k: int| 0 <= k < msgs.len() ==> chat_of(append_all(s, id, msgs), id).last_updated
            >= #[trigger] msgs[k].timestamp,
        exists|k: int|
            0 <= k < msgs.len() && msgs[k].timestamp == chat_of(
                append_all(s, id, msgs),
                id,
            ).last_updated,
{
    lemma_append_ordering(s, id, msgs);
    let fin = chat_of(append_all(s, id, msgs), id).last_updated;
    if fin == chat_of(s, id).last_updated {
        assert(msgs[0].timestamp >= fin);
        assert(fin >= msgs[0].timestamp);
        assert(msgs[0].timestamp == fin);
    }
}

/// Whether a session survives a sweep at `now` with threshold `max_age`:
/// only sessions whose activity timestamp is strictly older than
/// `now - max_age` are evicted, so one exactly at the threshold stays.
pub open spec fn retained(c: ChatView, now: int, max_age: int) -> bool {
    now - c.last_updated <= max_age
}

/// The store after one retention sweep: the retained sessions, in their
/// original order.
pub open spec fn sweep(s: Seq<ChatView>, now: int, max_age: int) -> Seq<ChatView>
    decreases s.len(),
{
    if s.len() == 0 {
        Seq::<ChatView>::empty()
    } else if retained(s.last(), now, max_age) {
        sweep(s.drop_last(), now, max_age).push(s.last())
    } else {
        sweep(s.drop_last(), now, max_age)
    }
}

proof fn lemma_ids_unique_drop_last(s: Seq<ChatView>)
    requires
        ids_unique(s),
        s.len() > 0,
    ensures
        ids_unique(s.drop_last()),
{
    assert forall|i: int, j: int| 0 <= i < j < s.drop_last().len() implies s.drop_last()[i].id
        != s.drop_last()[j].id by {
        assert(s[i].id != s[j].id);
    }
}

/// What a retention sweep does, session by session: exactly the sessions
/// whose activity is recent enough stay live, each wholly untouched, and
/// identifiers stay unique.
pub proof fn lemma_sweep_ids(s: Seq<ChatView>, now: int, max_age: int)
    requires
        ids_unique(s),
    ensures
        ids_unique(sweep(s, now, max_age)),
        all_wf(s) ==> all_wf(sweep(s, now, max_age)),
        forall|id: u128| #[trigger] has_chat(sweep(s, now, max_age), id) <==> (has_chat(s, id)
            && retained(chat_of(s, id), now, max_age)),
        forall|id: u128| #[trigger] has_chat(sweep(s, now, max_age), id) ==> chat_of(
            sweep(s, now, max_age),
            id,
        ) == chat_of(s, id),
    decreases s.len(),
{
    let sw = sweep(s, now, max_age);
    if s.len() == 0 {
    } else {
        let s0 = s.drop_last();
        let c = s.last();
        lemma_ids_unique_drop_last(s);
        lemma_sweep_ids(s0, now, max_age);
        let sw0 = sweep(s0, now, max_age);
        assert(s =~= s0.push(c));
        assert(!has_chat(s0, c.id)) by {
            if has_chat(s0, c.id) {
                let k = choose|k: int| 0 <= k < s0.len() && s0[k].id == c.id;
                assert(s[k].id == s[s.len() - 1].id);
                assert(false);
            }
        }
        assert(!has_chat(sw0, c.id));
        if all_wf(s) {
            assert forall|i: int| 0 <= i < s0.len() implies (#[trigger] s0[i]).wf() by {
                assert(s[i].wf());
            }
        }
        if retained(c, now, max_age) {
            assert(sw == sw0.push(c));
            assert forall|i: int, j: int| 0 <= i < j < sw.len() implies sw[i].id != sw[j].id by {
                if j < sw0.len() {
                    assert(sw0[i].id != sw0[j].id);
                } else {
                    assert(sw[j] == c);
                    if sw0[i].id == c.id {
                        assert(has_chat(sw0, c.id));
                    }
                }
            }
            assert forall|id: u128| #[trigger] has_chat(sw, id) <==> (has_chat(s, id) && retained(
                chat_of(s, id),
                now,
                max_age,
            )) by {
                lemma_has_chat_push(sw0, c, id);
                lemma_has_chat_push(s0, c, id);
                if id == c.id {
                    lemma_chat_index_is(s, c.id, s.len() - 1);
                } else {
                    if has_chat(s0, id) {
                        let k = chat_index(s0, id);
                        assert(0 <= k < s0.len() && s0[k].id == id);
                        lemma_chat_index_is(s0, id, k);
                        lemma_chat_index_is(s, id, k);
                    }
                }
            }
            assert forall|id: u128| #[trigger] has_chat(sw, id) implies chat_of(sw, id) == chat_of(
                s,
                id,
            ) by {
                lemma_has_chat_push(sw0, c, id);
                if id == c.id {
                    lemma_chat_index_is(sw, c.id, sw.len() - 1);
                    lemma_chat_index_is(s, c.id, s.len() - 1);
                } else {
                    assert(has_chat(sw0, id));
                    let k = chat_index(sw0, id);
                    assert(0 <= k < sw0.len() && sw0[k].id == id);
                    lemma_chat_index_is(sw0, id, k);
                    lemma_chat_index_is(sw, id, k);
                    assert(has_chat(s0, id));
                    let k2 = chat_index(s0, id);
                    assert(0 <= k2 < s0.len() && s0[k2].id == id);
                    lemma_chat_index_is(s0, id, k2);
                    lemma_chat_index_is(s, id, k2);
                }
            }
            if all_wf(s) {
                assert forall|i: int| 0 <= i < sw.len() implies (#[trigger] sw[i]).wf() by {
                    if i < sw0.len() {
                        assert(sw0[i].wf());
                    } else {
                        assert(sw[i] == c);
                        assert(s[s.len() - 1].wf());
                    }
                }
            }
        } else {
            assert(sw == sw0);
            assert forall|id: u128| #[trigger] has_chat(sw, id) <==> (has_chat(s, id) && retained(
                chat_of(s, id),
                now,
                max_age,
            )) by {
                lemma_has_chat_push(s0, c, id);
                if id == c.id {
                    lemma_chat_index_is(s, c.id, s.len() - 1);
                    assert(!has_chat(sw0, c.id));
                } else {
                    if has_chat(s0, id) {
                        let k = chat_index(s0, id);
                        assert(0 <= k < s0.len() && s0[k].id == id);
                        lemma_chat_index_is(s0, id, k);
                        lemma_chat_index_is(s, id, k);
                    }
                }
            }
            assert forall|id: u128| #[trigger] has_chat(sw, id) implies chat_of(sw, id) == chat_of(
                s,
                id,
            ) by {
                assert(has_chat(s0, id) && retained(chat_of(s0, id), now, max_age));
                let k = chat_index(s0, id);
                assert(0 <= k < s0.len() && s0[k].id == id);
                lemma_chat_index_is(s0, id, k);
                lemma_chat_index_is(s, id, k);
            }
        }
    }
}

/// Eviction threshold: at a sweep at `now` with threshold `max_age`, a
/// session whose activity timestamp sits exactly at `now - max_age` stays,
/// untouched; one strictly older goes; and one that gains a sufficiently
/// recent turn after becoming eligible stays at the next sweep.
pub proof fn lemma_eviction_threshold(
    s: Seq<ChatView>,
    id: u128,
    now: int,
    max_age: int,
    m: MessageView,
)
    requires
        ids_unique(s),
        has_chat(s, id),
    ensures
        chat_of(s, id).last_updated == now - max_age ==> has_chat(sweep(s, now, max_age), id)
            && chat_of(sweep(s, now, max_age), id) == chat_of(s, id),
        chat_of(s, id).last_updated < now - max_age ==> !has_chat(sweep(s, now, max_age), id),
        m.timestamp >= now - max_age ==> has_chat(sweep(store_append(s, id, m), now, max_age), id),
{
    lemma_sweep_ids(s, now, max_age);
    lemma_append_isolation(s, id, m);
    lemma_sweep_ids(store_append(s, id, m), now, max_age);
}

/// The in-memory home of all live sessions.
pub struct ChatService {
    chats: Vec<Chat>,
}

impl View for ChatService {
    type V = Seq<ChatView>;

    closed spec fn view(&self) -> Seq<ChatView> {
        self.chats@.map_values(|c: Chat| c@)
    }
}

impl ChatService {
    /// The store's invariant: identifiers are unique and every session is
    /// well formed. Established by `new` and preserved by every operation.
    pub open spec fn wf(self) -> bool {
        ids_unique(self@) && all_wf(self@)
    }

    /// An empty store.
    pub fn new() -> (s: ChatService)
        ensures
            s@ == Seq::<ChatView>::empty(),
            s.wf(),
    {
        let s = ChatService { chats: Vec::new() };
        proof {
            assert(s@ =~= Seq::<ChatView>::empty());
        }
        s
    }

    /// Where the session `chat_id` sits, if it is live.
    fn find_index(&self, chat_id: u128) -> (r: Option<usize>)
        ensures
            match r {
                Some(i) => i < self@.len() && self@[i as int].id == chat_id,
                None => !has_chat(self@, chat_id),
            },
    {
        let mut i: usize = 0;
        while i < self.chats.len()
            invariant
                i <= self@.len(),
                self@.len() == self.chats@.len(),
                forall|j: int| 0 <= j < i ==> self@[j].id != chat_id,
            decreases self@.len() - i,
        {
            if self.chats[i].id == chat_id {
                return Some(i);
            }
            i = i + 1;
        }
        None
    }

    /// A snapshot of the session `chat_id`, or `None` if no such session is
    /// live (never created, or already evicted).
    pub fn get_chat(&self, chat_id: u128) -> (r: Option<Chat>)
        requires
            self.wf(),
        ensures
            r is Some <==> has_chat(self@, chat_id),
            r matches Some(chat) ==> chat@ == chat_of(self@, chat_id) && chat.id == chat_id,
    {
        match self.find_index(chat_id) {
            Some(i) => {
                proof {
                    lemma_chat_index_is(self@, chat_id, i as int);
                }
                Some(self.chats[i].clone())
            },
            None => None,
        }
    }

    /// Snapshots of all live sessions, in the store's current order.
    pub fn list_chats(&self) -> (r: Vec<Chat>)
        ensures
            r@.len() == self@.len(),
            forall|i: int| 0 <= i < r@.len() ==> (#[trigger] r@[i])@ == self@[i],
    {
        let mut r: Vec<Chat> = Vec::new();
        let mut i: usize = 0;
        while i < self.chats.len()
            invariant
                i <= self@.len(),
                self@.len() == self.chats@.len(),
                r@.len() == i,
                forall|j: int| 0 <= j < i ==> (#[trigger] r@[j])@ == self@[j],
            decreases self@.len() - i,
        {
            r.push(self.chats[i].clone());
            i = i + 1;
        }
        r
    }

    /// Insert a fresh session with the given identifier, created at `now`.
    /// Succeeds exactly when no live session already carries `id`; a
    /// collision leaves the store untouched and aborts this request alone.
    pub fn create_chat_at(&mut self, id: u128, api_key: String, now: i64) -> (r: Result<
        Chat,
        ChatError,
    >)
        requires
            old(self).wf(),
        ensures
            final(self).wf(),
            r is Ok <==> !has_chat(old(self)@, id),
            match r {
                Ok(chat) => final(self)@ == old(self)@.push(new_chat_view(id, api_key@, now as int))
                    && chat@ == new_chat_view(id, api_key@, now as int) && chat.id == id
                    && has_chat(final(self)@, id) && chat_of(final(self)@, id) == chat@,
                Err(e) => e == ChatError::IdCollision && final(self)@ == old(self)@,
            },
    {
        match self.find_index(id) {
            Some(_i) => Err(ChatError::IdCollision),
            None => {
                let chat = Chat::new_at(id, api_key, now);
                let snapshot = chat.clone();
                let ghost prev = self@;
                let ghost cv = chat@;
                self.chats.push(chat);
                proof {
                    assert(self@ =~= prev.push(cv));
                    assert forall|i: int, j: int| 0 <= i < j < self@.len() implies self@[i].id
                        != self@[j].id by {
                        if j < prev.len() {
                            assert(prev[i].id != prev[j].id);
                        } else {
                            assert(self@[j] == cv);
                            assert(!has_chat(prev, id));
                            assert(prev[i].id != id);
                        }
                    }
                    assert(self.wf());
                    lemma_chat_index_is(self@, id, prev.len() as int);
                }
                Ok(snapshot)
            },
        }
    }

    /// Insert a fresh session under a newly generated identifier, created at
    /// the current time. The identifier and the clock reading come from the
    /// platform, so the contract fixes everything but their values; an
    /// identifier collision (astronomically unlikely) is reported, never
    /// papered over.
    pub fn create_chat(&mut self, api_key: String) -> (r: Result<Chat, ChatError>)
        requires
            old(self).wf(),
        ensures
            final(self).wf(),
            r is Err ==> old(self)@.len() > 0,
            match r {
                Ok(chat) => !has_chat(old(self)@, chat.id) && chat@ == new_chat_view(
                    chat.id,
                    api_key@,
                    chat@.created_at,
                ) && final(self)@ == old(self)@.push(chat@) && has_chat(final(self)@, chat.id)
                    && chat_of(final(self)@, chat.id) == chat@,
                Err(e) => e == ChatError::IdCollision && final(self)@ == old(self)@,
            },
    {
        let id = crate::sys::fresh_id();
        let now = crate::sys::now_unix();
        self.create_chat_at(id, api_key, now)
    }

    /// Atomically append one turn with timestamp `now` to the session
    /// `chat_id` and refresh its activity timestamp, returning a snapshot of
    /// the updated session. Fails exactly when the session is not live, and
    /// then changes nothing.
    pub fn add_message_at(
        &mut self,
        chat_id: u128,
        content: String,
        role: MessageRole,
        reasoning_content: Option<String>,
        now: i64,
    ) -> (r: Result<Chat, ChatError>)
        requires
            old(self).wf(),
        ensures
            final(self).wf(),
            r is Ok <==> has_chat(old(self)@, chat_id),
            match r {
                Ok(chat) => ({
                    let m = MessageView {
                        role,
                        content: content@,
                        timestamp: now as int,
                        reasoning_content: reasoning_content.deep_view(),
                    };
                    &&& final(self)@ == store_append(old(self)@, chat_id, m)
                    &&& has_chat(final(self)@, chat_id)
                    &&& chat_index(final(self)@, chat_id) == chat_index(old(self)@, chat_id)
                    &&& chat@ == chat_of(old(self)@, chat_id).with_message(m)
                    &&& chat@ == chat_of(final(self)@, chat_id)
                    &&& chat.id == chat_id
                }),
                Err(e) => e == ChatError::SessionNotFound && final(self)@ == old(self)@,
            },
    {
        match self.find_index(chat_id) {
            None => Err(ChatError::SessionNotFound),
            Some(i) => {
                proof {
                    lemma_chat_index_is(self@, chat_id, i as int);
                }
                let msg = Message { role, content, timestamp: now, reasoning_content };
                let ghost mv = msg@;
                let ghost prev = self@;
                let mut updated = self.chats[i].clone();
                updated.add_message(msg);
                let snapshot = updated.clone();
                let ghost uv = updated@;
                self.chats.set(i, updated);
                proof {
                    assert(self@ =~= prev.update(i as int, uv));
                    assert(uv == prev[i as int].with_message(mv));
                    assert forall|k: int| 0 <= k < self@.len() implies self@[k].id
                        == prev[k].id by {}
                    assert(ids_unique(self@));
                    assert forall|k: int| 0 <= k < self@.len() implies (
                    #[trigger] self@[k]).wf() by {
                        assert(prev[k].wf());
                    }
                    lemma_chat_index_is(self@, chat_id, i as int);
                }
                Ok(snapshot)
            },
        }
    }

    /// Append one turn timestamped with the current clock reading. The clock
    /// value comes from the platform, so the contract pins the whole effect
    /// in terms of the appended turn found in the returned snapshot.
    pub fn add_message(
        &mut self,
        chat_id: u128,
        content: String,
        role: MessageRole,
        reasoning_content: Option<String>,
    ) -> (r: Result<Chat, ChatError>)
        requires
            old(self).wf(),
        ensures
            final(self).wf(),
            r is Ok <==> has_chat(old(self)@, chat_id),
            match r {
                Ok(chat) => ({
                    let m = chat@.messages.last();
                    &&& chat@.messages.len() > 0
                    &&& m.role == role
                    &&& m.content == content@
                    &&& m.reasoning_content == reasoning_content.deep_view()
                    &&& final(self)@ == store_append(old(self)@, chat_id, m)
                    &&& chat@ == chat_of(old(self)@, chat_id).with_message(m)
                    &&& chat@ == chat_of(final(self)@, chat_id)
                    &&& chat.id == chat_id
                }),
                Err(e) => e == ChatError::SessionNotFound && final(self)@ == old(self)@,
            },
    {
        let now = crate::sys::now_unix();
        self.add_message_at(chat_id, content, role, reasoning_content, now)
    }

    /// Remove every session whose activity timestamp is strictly older than
    /// `now - max_age`; all others stay live, wholly untouched and in their
    /// original order.
    pub fn evict_older_than(&mut self, now: i64, max_age: i64)
        requires
            old(self).wf(),
        ensures
            final(self).wf(),
            final(self)@ == sweep(old(self)@, now as int, max_age as int),
            forall|id: u128| #[trigger] has_chat(final(self)@, id) <==> (has_chat(old(self)@, id)
                && retained(chat_of(old(self)@, id), now as int, max_age as int)),
            forall|id: u128| #[trigger] has_chat(final(self)@, id) ==> chat_of(final(self)@, id)
                == chat_of(old(self)@, id),
    {
        let ghost prev = self@;
        let mut kept: Vec<Chat> = Vec::new();
        let mut i: usize = 0;
        while i < self.chats.len()
            invariant
                i <= self.chats@.len(),
                self@ == prev,
                self@.len() == self.chats@.len(),
                kept@.map_values(|c: Chat| c@) == sweep(
                    prev.subrange(0, i as int),
                    now as int,
                    max_age as int,
                ),
            decreases self.chats@.len() - i,
        {
            let keep = (now as i128) - (self.chats[i].last_updated as i128) <= (max_age as i128);
            let ghost pre_kept = kept@.map_values(|c: Chat| c@);
            if keep {
                kept.push(self.chats[i].clone());
            }
            proof {
                assert(prev.subrange(0, i as int + 1).drop_last() =~= prev.subrange(0, i as int));
                assert(prev.subrange(0, i as int + 1).last() == prev[i as int]);
                assert(keep == retained(prev[i as int], now as int, max_age as int));
                if keep {
                    assert(kept@.map_values(|c: Chat| c@) =~= pre_kept.push(prev[i as int]));
                }
            }
            i = i + 1;
        }
        proof {
            assert(prev.subrange(0, prev.len() as int) =~= prev);
        }
        self.chats = kept;
        proof {
            lemma_sweep_ids(prev, now as int, max_age as int);
        }
    }

    /// One retention pass at the current clock reading, with the default
    /// threshold. The clock value comes from the platform, so the contract
    /// says only that some reading governed the sweep; what a sweep does at
    /// any given reading is pinned by `evict_older_than`.
    pub fn cleanup_old_chats(&mut self)
        requires
            old(self).wf(),
        ensures
            final(self).wf(),
            exists|t: int| final(self)@ == sweep(old(self)@, t, DEFAULT_MAX_AGE_SECS as int),
    {
        let now = crate::sys::now_unix();
        self.evict_older_than(now, DEFAULT_MAX_AGE_SECS);
        proof {
            assert(final(self)@ == sweep(old(self)@, now as int, DEFAULT_MAX_AGE_SECS as int));
        }
    }
}

} // verus!
