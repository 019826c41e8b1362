//! The outbox: an append-mostly event log with a bounded-retry
//! delivery-intent state machine.  An event is created `Unpublished`, moves
//! to `Published` when the relay confirms publication (terminal), or cycles
//! through `Errored` with a growing `error_count`; once the count reaches
//! the retry ceiling the event is no longer handed to the relay.

use vstd::prelude::*;

use crate::clock::now_micros;
use crate::errors::StoreError;
use crate::ids::fresh_id;
use crate::person_db::clone_opt_string;

verus! {

/// Failed publish attempts after which an event stops being fetched.
pub const RETRY_CEILING: u32 = 10;

/// The most rows one pending fetch returns.
pub const PENDING_BATCH_LIMIT: usize = 50;

/// Delivery state of an outbox event.
#[derive(Clone, Copy, Debug, PartialEq, Eq, Structural)]
pub enum EventStatus {
    /// Enqueued, not yet confirmed published.
    Unpublished,
    /// Confirmed published; terminal.
    Published,
    /// The last publish attempt failed.
    Errored,
}

/// The mathematical value of an outbox row.
pub struct MessageView {
    pub id: u128,
    pub topic: Seq<char>,
    pub event_name: Seq<char>,
    pub payload: Seq<char>,
    pub status: EventStatus,
    pub created_date_time: i64,
    pub published_date_time: Option<i64>,
    pub error_count: u32,
    pub error_message: Option<Seq<char>>,
}

/// A stored outbox row.
#[derive(Debug)]
pub struct OutboxMessage {
    pub id: u128,
    pub topic: String,
    pub event_name: String,
    pub payload: String,
    pub status: EventStatus,
    pub created_date_time: i64,
    pub published_date_time: Option<i64>,
    pub error_count: u32,
    pub error_message: Option<String>,
}

impl View for OutboxMessage {
    type V = MessageView;

    open spec fn view(&self) -> MessageView {
        MessageView {
            id: self.id,
            topic: self.topic@,
            event_name: self.event_name@,
            payload: self.payload@,
            status: self.status,
            created_date_time: self.created_date_time,
            published_date_time: self.published_date_time,
            error_count: self.error_count,
            error_message: self.error_message.deep_view(),
        }
    }
}

impl DeepView for OutboxMessage {
    type V = MessageView;

    open spec fn deep_view(&self) -> MessageView {
        self.view()
    }
}

impl OutboxMessage {
    /// An owned copy of the row, with the same view.
    pub fn duplicate(&self) -> (r: Self)
        ensures
            r@ == self@,
    {
        OutboxMessage {
            id: self.id,
            topic: self.topic.clone(),
            event_name: self.event_name.clone(),
            payload: self.payload.clone(),
            status: self.status,
            created_date_time: self.created_date_time,
            published_date_time: self.published_date_time,
            error_count: self.error_count,
            error_message: clone_opt_string(&self.error_message),
        }
    }
}

// ---------------------------------------------------------------------------
// Spec-level structure of the log.
// ---------------------------------------------------------------------------

/// Some event holds this id.
pub open spec fn has_event_id(s: Seq<MessageView>, id: u128) -> bool {
    exists|i: int| 0 <= i < s.len() && s[i].id == id
}

/// No two events share an id.
pub open spec fn unique_event_ids(s: Seq<MessageView>) -> bool {
    forall|i: int, j: int| 0 <= i < j < s.len() ==> s[i].id != s[j].id
}

/// The value of a freshly enqueued event.
pub open spec fn fresh_message(
    id: u128,
    topic: Seq<char>,
    event_name: Seq<char>,
    payload: Seq<char>,
    now: i64,
) -> MessageView {
    MessageView {
        id: id,
        topic: topic,
        event_name: event_name,
        payload: payload,
        status: EventStatus::Unpublished,
        created_date_time: now,
        published_date_time: None,
        error_count: 0,
        error_message: None,
    }
}

/// An event the relay should still attempt: not yet confirmed published and
/// under the retry ceiling.
pub open spec fn pending(m: MessageView) -> bool {
    m.published_date_time is None && m.error_count < RETRY_CEILING
}

/// The first `limit` pending events of the log, in log order.
pub open spec fn pending_prefix(s: Seq<MessageView>, limit: int) -> Seq<MessageView>
    decreases s.len(),
{
    if s.len() == 0 || limit <= 0 {
        Seq::empty()
    } else if pending(s[0]) {
        seq![s[0]] + pending_prefix(s.drop_first(), limit - 1)
    } else {
        pending_prefix(s.drop_first(), limit)
    }
}

/// How one event changes when the relay confirms publication: status
/// `Published`, error count cleared, and the publication timestamp set once
/// (a second confirmation leaves it untouched).
pub open spec fn publish_mark(m: MessageView, now: i64) -> MessageView {
    MessageView {
        id: m.id,
        topic: m.topic,
        event_name: m.event_name,
        payload: m.payload,
        status: EventStatus::Published,
        created_date_time: m.created_date_time,
        published_date_time: if m.published_date_time is Some {
            m.published_date_time
        } else {
            Some(now)
        },
        error_count: 0,
        error_message: m.error_message,
    }
}

/// The log after the relay confirms publication of event `id`.
pub open spec fn publish_transform(s: Seq<MessageView>, id: u128, now: i64) -> Seq<MessageView> {
    s.map_values(
        |m: MessageView|
            if m.id == id {
                publish_mark(m, now)
            } else {
                m
            },
    )
}

/// How one event changes when a publish attempt fails: status `Errored`,
/// error count up by one (saturating), publication timestamp untouched.
pub open spec fn error_mark(m: MessageView) -> MessageView {
    MessageView {
        id: m.id,
        topic: m.topic,
        event_name: m.event_name,
        payload: m.payload,
        status: EventStatus::Errored,
        created_date_time: m.created_date_time,
        published_date_time: m.published_date_time,
        error_count: if m.error_count == u32::MAX {
            m.error_count
        } else {
            (m.error_count + 1) as u32
        },
        error_message: m.error_message,
    }
}

/// The log after a failed publish attempt of event `id`.
pub open spec fn error_transform(s: Seq<MessageView>, id: u128) -> Seq<MessageView> {
    s.map_values(
        |m: MessageView|
            if m.id == id {
                error_mark(m)
            } else {
                m
            },
    )
}

// ---------------------------------------------------------------------------
// The log itself.
// ---------------------------------------------------------------------------

/// The outbox event log.
pub struct Outbox {
    messages: Vec<OutboxMessage>,
}

impl View for Outbox {
    type V = Seq<MessageView>;

    closed spec fn view(&self) -> Seq<MessageView> {
        self.messages.deep_view()
    }
}

impl Outbox {
    /// The log invariant: event ids are unique.
    pub open spec fn wf(&self) -> bool {
        unique_event_ids(self@)
    }

    /// An empty log.
    pub fn new() -> (o: Self)
        ensures
            o@ == Seq::<MessageView>::empty(),
            o.wf(),
    {
        let o = Outbox { messages: Vec::new() };
        proof {
            assert(o@ =~= Seq::<MessageView>::empty());
        }
        o
    }

    /// Whether some event holds this id.
    pub fn contains_event_id(&self, id: u128) -> (r: bool)
        ensures
            r == has_event_id(self@, id),
    {
        let n = self.messages.len();
        let mut i: usize = 0;
        while i < n
            invariant
                i <= n,
                n == self@.len(),
                forall|j: int| 0 <= j < i ==> self@[j].id != id,
            decreases n - i,
        {
            if self.messages[i].id == id {
                assert(self@[i as int].id == id);
                return true;
            }
            i += 1;
        }
        false
    }

    /// Appends a fresh `Unpublished` event with the given id and enqueue
    /// time.  Fails when the id is already taken.
    pub fn insert_event(
        &mut self,
        id: u128,
        topic: &str,
        event_name: &str,
        payload: String,
        now: i64,
    ) -> (r: Result<(), StoreError>)
        requires
            old(self).wf(),
        ensures
            final(self).wf(),
            match r {
                Ok(()) => !has_event_id(old(self)@, id) && final(self)@ == old(self)@.push(
                    fresh_message(id, topic@, event_name@, payload@, now),
                ),
                Err(e) => e == StoreError::DuplicateId && has_event_id(old(self)@, id)
                    && final(self)@ == old(self)@,
            },
    {
        if self.contains_event_id(id) {
            return Err(StoreError::DuplicateId);
        }
        let m = OutboxMessage {
            id: id,
            topic: topic.to_owned(),
            event_name: event_name.to_owned(),
            payload: payload,
            status: EventStatus::Unpublished,
            created_date_time: now,
            published_date_time: None,
            error_count: 0,
            error_message: None,
        };
        self.messages.push(m);
        proof {
            assert(final(self)@ =~= old(self)@.push(
                fresh_message(id, topic@, event_name@, final(self)@.last().payload, now),
            ));
        }
        Ok(())
    }

    /// Appends an event under a freshly drawn id, enqueued now.  Fails only
    /// when the drawn id collides with an existing event's.
    pub fn insert(&mut self, topic: &str, event_name: &str, payload: String) -> (r: Result<
        (),
        StoreError,
    >)
        requires
            old(self).wf(),
        ensures
            final(self).wf(),
            match r {
                Ok(()) => final(self)@.len() == old(self)@.len() + 1
                    && final(self)@ == old(self)@.push(final(self)@.last())
                    && !has_event_id(old(self)@, final(self)@.last().id)
                    && final(self)@.last() == fresh_message(
                    final(self)@.last().id,
                    topic@,
                    event_name@,
                    payload@,
                    final(self)@.last().created_date_time,
                ),
                // failure needs a collision to blame: the drawn id met a
                // non-empty log
                Err(e) => e == StoreError::DuplicateId && old(self)@.len() > 0 && final(self)@
                    == old(self)@,
            },
    {
        let id = fresh_id();
        let now = now_micros();
        self.insert_event(id, topic, event_name, payload, now)
    }

    /// Every event of the log, in log order, published and abandoned ones
    /// included.
    pub fn all_messages(&self) -> (r: Vec<OutboxMessage>)
        ensures
            r.deep_view() == self@,
    {
        let n = self.messages.len();
        let mut r: Vec<OutboxMessage> = Vec::new();
        let mut i: usize = 0;
        proof {
            assert(r.deep_view() =~= self@.subrange(0, 0));
        }
        while i < n
            invariant
                i <= n,
                n == self@.len(),
                r.deep_view() == self@.subrange(0, i as int),
            decreases n - i,
        {
            let row = self.messages[i].duplicate();
            let ghost pre = r.deep_view();
            r.push(row);
            proof {
                assert(r.deep_view() =~= pre.push(row@));
                assert(pre.push(row@) =~= self@.subrange(0, i as int + 1));
            }
            i += 1;
        }
        proof {
            assert(self@.subrange(0, n as int) =~= self@);
        }
        r
    }

    /// The batch the relay should attempt next: the first pending events of
    /// the log, at most `PENDING_BATCH_LIMIT` of them.
    pub fn get_pending_messages(&self) -> (r: Vec<OutboxMessage>)
        ensures
            r.deep_view() == pending_prefix(self@, PENDING_BATCH_LIMIT as int),
    {
        let n = self.messages.len();
        let mut r: Vec<OutboxMessage> = Vec::new();
        let mut i: usize = 0;
        proof {
            assert(r.deep_view() =~= Seq::<MessageView>::empty());
            assert(self@.skip(0) =~= self@);
        }
        while i < n && r.len() < PENDING_BATCH_LIMIT
            invariant
                i <= n,
                n == self@.len(),
                r.deep_view().len() <= PENDING_BATCH_LIMIT,
                pending_prefix(self@, PENDING_BATCH_LIMIT as int) == r.deep_view()
                    + pending_prefix(
                    self@.skip(i as int),
                    PENDING_BATCH_LIMIT as int - r.deep_view().len(),
                ),
            decreases n - i,
        {
            let ghost rest = self@.skip(i as int);
            let ghost budget = PENDING_BATCH_LIMIT as int - r.deep_view().len();
            proof {
                assert(rest.len() > 0);
                assert(rest[0] == self@[i as int]);
                assert(rest.drop_first() =~= self@.skip(i as int + 1));
            }
            let m = &self.messages[i];
            if m.published_date_time.is_none() && m.error_count < RETRY_CEILING {
                proof {
                    assert(pending(rest[0]));
                }
                let ghost pre = r.deep_view();
                r.push(m.duplicate());
                proof {
                    assert(r.deep_view() =~= pre.push(self@[i as int]));
                    assert(pre.push(rest[0]) =~= pre + seq![rest[0]]);
                    assert(pending_prefix(rest, budget) == seq![rest[0]] + pending_prefix(
                        rest.drop_first(),
                        budget - 1,
                    ));
                    assert(r.deep_view() + pending_prefix(
                        self@.skip(i as int + 1),
                        PENDING_BATCH_LIMIT as int - r.deep_view().len(),
                    ) =~= pre + pending_prefix(rest, budget));
                }
            } else {
                proof {
                    assert(!pending(rest[0]));
                    assert(pending_prefix(rest, budget) == pending_prefix(
                        rest.drop_first(),
                        budget,
                    ));
                }
            }
            i += 1;
        }
        proof {
            if i == n {
                assert(self@.skip(n as int) =~= Seq::<MessageView>::empty());
                assert(pending_prefix(
                    Seq::<MessageView>::empty(),
                    PENDING_BATCH_LIMIT as int - r.deep_view().len(),
                ) =~= Seq::<MessageView>::empty());
            } else {
                assert(r.deep_view().len() == PENDING_BATCH_LIMIT);
                assert(pending_prefix(self@.skip(i as int), 0) =~= Seq::<MessageView>::empty());
            }
            assert(r.deep_view() =~= r.deep_view() + Seq::<MessageView>::empty());
        }
        r
    }

    /// Records a publication confirmation for event `id` at time `now`:
    /// status `Published`, error count cleared, publication timestamp set if
    /// it was not already.  Unknown ids change nothing.
    pub fn clear_event_at(&mut self, id: u128, now: i64)
        requires
            old(self).wf(),
        ensures
            final(self).wf(),
            final(self)@ == publish_transform(old(self)@, id, now),
    {
        let n = self.messages.len();
        let mut i: usize = 0;
        while i < n
            invariant
                i <= n,
                n == old(self)@.len(),
                self@.len() == old(self)@.len(),
                forall|j: int| 0 <= j < i ==> self@[j] == publish_transform(old(self)@, id, now)[j],
                forall|j: int| i <= j < n ==> self@[j] == old(self)@[j],
            decreases n - i,
        {
            let ghost snap = self@;
            if self.messages[i].id == id {
                let m = &self.messages[i];
                let updated = OutboxMessage {
                    id: m.id,
                    topic: m.topic.clone(),
                    event_name: m.event_name.clone(),
                    payload: m.payload.clone(),
                    status: EventStatus::Published,
                    created_date_time: m.created_date_time,
                    published_date_time: match m.published_date_time {
                        Some(t) => Some(t),
                        None => Some(now),
                    },
                    error_count: 0,
                    error_message: clone_opt_string(&m.error_message),
                };
                proof {
                    assert(updated@ == publish_mark(old(self)@[i as int], now));
                }
                self.messages.remove(i);
                self.messages.insert(i, updated);
                proof {
                    assert(self@ =~= snap.update(i as int, publish_mark(old(self)@[i as int], now)));
                }
            }
            proof {
                assert forall|j: int| 0 <= j < i + 1 implies self@[j] == publish_transform(
                    old(self)@,
                    id,
                    now,
                )[j] by {
                    if j < i {
                        assert(self@[j] == snap[j]);
                    }
                }
            }
            i += 1;
        }
        proof {
            assert(final(self)@ =~= publish_transform(old(self)@, id, now));
            lemma_transform_keeps_unique(old(self)@, final(self)@);
        }
    }

    /// Records a publication confirmation for event `id`, stamped with the
    /// current time.  Beyond the first confirmation this is a no-op: a row
    /// already published keeps its publication timestamp, status and
    /// cleared error count.
    pub fn clear_event(&mut self, id: u128)
        requires
            old(self).wf(),
        ensures
            final(self).wf(),
            final(self)@.len() == old(self)@.len(),
            forall|j: int|
                0 <= j < old(self)@.len() && old(self)@[j].id != id
                    ==> final(self)@[j] == old(self)@[j],
            forall|j: int|
                0 <= j < old(self)@.len() && old(self)@[j].id == id ==> final(self)@[j]
                    == publish_mark(old(self)@[j], final(self)@[j].published_date_time->0),
            forall|j: int|
                0 <= j < old(self)@.len() && old(self)@[j].id == id
                    && old(self)@[j].published_date_time is Some
                    ==> final(self)@[j] == publish_mark(old(self)@[j], 0),
    {
        let now = now_micros();
        self.clear_event_at(id, now);
        proof {
            assert forall|j: int|
                0 <= j < old(self)@.len() && old(self)@[j].id == id implies final(self)@[j]
                == publish_mark(old(self)@[j], final(self)@[j].published_date_time->0) by {
                assert(final(self)@[j] == publish_mark(old(self)@[j], now));
            }
        }
    }

    /// Records a failed publish attempt for event `id`: status `Errored`,
    /// error count up by one (saturating), publication timestamp untouched.
    /// Unknown ids change nothing.
    pub fn errored_event(&mut self, id: u128)
        requires
            old(self).wf(),
        ensures
            final(self).wf(),
            final(self)@ == error_transform(old(self)@, id),
    {
        let n = self.messages.len();
        let mut i: usize = 0;
        while i < n
            invariant
                i <= n,
                n == old(self)@.len(),
                self@.len() == old(self)@.len(),
                forall|j: int| 0 <= j < i ==> self@[j] == error_transform(old(self)@, id)[j],
                forall|j: int| i <= j < n ==> self@[j] == old(self)@[j],
            decreases n - i,
        {
            let ghost snap = self@;
            if self.messages[i].id == id {
                let m = &self.messages[i];
                let bumped: u32 = if m.error_count == u32::MAX {
                    m.error_count
                } else {
                    m.error_count + 1
                };
                let updated = OutboxMessage {
                    id: m.id,
                    topic: m.topic.clone(),
                    event_name: m.event_name.clone(),
                    payload: m.payload.clone(),
                    status: EventStatus::Errored,
                    created_date_time: m.created_date_time,
                    published_date_time: m.published_date_time,
                    error_count: bumped,
                    error_message: clone_opt_string(&m.error_message),
                };
                proof {
                    assert(updated@ == error_mark(old(self)@[i as int]));
                }
                self.messages.remove(i);
                self.messages.insert(i, updated);
                proof {
                    assert(self@ =~= snap.update(i as int, error_mark(old(self)@[i as int])));
                }
            }
            proof {
                assert forall|j: int| 0 <= j < i + 1 implies self@[j] == error_transform(
                    old(self)@,
                    id,
                )[j] by {
                    if j < i {
                        assert(self@[j] == snap[j]);
                    }
                }
            }
            i += 1;
        }
        proof {
            assert(final(self)@ =~= error_transform(old(self)@, id));
            lemma_transform_keeps_unique(old(self)@, final(self)@);
        }
    }
}

/// A pointwise change that keeps every id keeps uniqueness.
proof fn lemma_transform_keeps_unique(s: Seq<MessageView>, r: Seq<MessageView>)
    requires
        unique_event_ids(s),
        r.len() == s.len(),
        forall|i: int| 0 <= i < s.len() ==> r[i].id == s[i].id,
    ensures
        unique_event_ids(r),
{
}

// ---------------------------------------------------------------------------
// Laws of the delivery state machine.
// ---------------------------------------------------------------------------

/// Publication confirmation is idempotent: confirming an already confirmed
/// event changes nothing, whatever time the second confirmation carries.
pub proof fn lemma_publish_idempotent(s: Seq<MessageView>, id: u128, t1: i64, t2: i64)
    ensures
        publish_transform(publish_transform(s, id, t1), id, t2) == publish_transform(s, id, t1),
{
    assert(publish_transform(publish_transform(s, id, t1), id, t2) =~= publish_transform(
        s,
        id,
        t1,
    ));
}

/// Every event of a pending batch is a pending event of the log.
proof fn lemma_pending_prefix_sound(s: Seq<MessageView>, limit: int, j: int)
    requires
        0 <= j < pending_prefix(s, limit).len(),
    ensures
        exists|i: int|
            0 <= i < s.len() && s[i] == pending_prefix(s, limit)[j] && pending(s[i]),
    decreases s.len(),
{
    if s.len() > 0 && limit > 0 && pending(s[0]) {
        if j == 0 {
            assert(pending_prefix(s, limit)[0] == s[0]);
        } else {
            lemma_pending_prefix_sound(s.drop_first(), limit - 1, j - 1);
            let i0 = choose|i: int|
                0 <= i < s.drop_first().len() && s.drop_first()[i] == pending_prefix(
                    s.drop_first(),
                    limit - 1,
                )[j - 1] && pending(s.drop_first()[i]);
            assert(s[i0 + 1] == s.drop_first()[i0]);
            assert(pending_prefix(s, limit)[j] == pending_prefix(s.drop_first(), limit - 1)[j - 1]);
        }
    } else if s.len() > 0 && limit > 0 {
        lemma_pending_prefix_sound(s.drop_first(), limit, j);
        let i0 = choose|i: int|
            0 <= i < s.drop_first().len() && s.drop_first()[i] == pending_prefix(
                s.drop_first(),
                limit,
            )[j] && pending(s.drop_first()[i]);
        assert(s[i0 + 1] == s.drop_first()[i0]);
    }
}

/// When the log fits in one batch, every pending event is in the batch.
proof fn lemma_pending_prefix_complete(s: Seq<MessageView>, limit: int, i: int)
    requires
        s.len() <= limit,
        0 <= i < s.len(),
        pending(s[i]),
    ensures
        pending_prefix(s, limit).contains(s[i]),
    decreases s.len(),
{
    if i == 0 {
        assert(pending_prefix(s, limit)[0] == s[0]);
    } else {
        lemma_pending_prefix_complete(s.drop_first(), limit - 1, i - 1);
        if pending(s[0]) {
            let j = choose|j: int|
                0 <= j < pending_prefix(s.drop_first(), limit - 1).len() && #[trigger] pending_prefix(
                    s.drop_first(),
                    limit - 1,
                )[j] == s.drop_first()[i - 1];
            assert(pending_prefix(s, limit)[j + 1] == pending_prefix(s.drop_first(), limit - 1)[j]);
        } else {
            lemma_pending_prefix_budget(s.drop_first(), limit - 1, limit);
            assert(pending_prefix(s, limit) == pending_prefix(s.drop_first(), limit));
            assert(pending_prefix(s.drop_first(), limit).contains(s.drop_first()[i - 1]));
        }
    }
}

/// A larger budget never loses batch entries when the whole log fits.
proof fn lemma_pending_prefix_budget(s: Seq<MessageView>, k1: int, k2: int)
    requires
        s.len() <= k1 <= k2,
    ensures
        pending_prefix(s, k1) == pending_prefix(s, k2),
    decreases s.len(),
{
    if s.len() > 0 {
        if pending(s[0]) {
            lemma_pending_prefix_budget(s.drop_first(), k1 - 1, k2 - 1);
        } else {
            lemma_pending_prefix_budget(s.drop_first(), k1, k2);
            lemma_pending_prefix_budget(s.drop_first(), k1 - 1, k1);
        }
    }
}

/// Whether some event of the pending batch holds this id.
pub open spec fn appears_in_pending(s: Seq<MessageView>, id: u128) -> bool {
    exists|j: int|
        0 <= j < pending_prefix(s, PENDING_BATCH_LIMIT as int).len() && pending_prefix(
            s,
            PENDING_BATCH_LIMIT as int,
        )[j].id == id
}

/// The retry ceiling: an unpublished event one failure short of the ceiling
/// is still handed to the relay, and stops being handed out after one more
/// failed attempt.  (Stated for a log that fits in one batch; past the
/// batch cap an event may also be held back by its position alone.)
pub proof fn lemma_retry_ceiling(s: Seq<MessageView>, i: int, id: u128)
    requires
        unique_event_ids(s),
        s.len() <= PENDING_BATCH_LIMIT,
        0 <= i < s.len(),
        s[i].id == id,
        s[i].published_date_time is None,
        s[i].error_count == RETRY_CEILING - 1,
    ensures
        appears_in_pending(s, id),
        !appears_in_pending(error_transform(s, id), id),
{
    let k = PENDING_BATCH_LIMIT as int;
    lemma_pending_prefix_complete(s, k, i);
    let j = choose|j: int|
        0 <= j < pending_prefix(s, k).len() && pending_prefix(s, k)[j] == s[i];
    assert(pending_prefix(s, k)[j].id == id);

    let r = error_transform(s, id);
    assert(r.len() == s.len());
    if appears_in_pending(r, id) {
        let j2 = choose|j2: int|
            0 <= j2 < pending_prefix(r, k).len() && pending_prefix(r, k)[j2].id == id;
        lemma_pending_prefix_sound(r, k, j2);
        let i2 = choose|i2: int|
            0 <= i2 < r.len() && r[i2] == pending_prefix(r, k)[j2] && pending(r[i2]);
        assert(r[i2].id == s[i2].id);
        assert(i2 == i);
        assert(r[i] == error_mark(s[i]));
        assert(r[i].error_count == RETRY_CEILING);
        assert(!pending(r[i]));
        assert(false);
    }
}

} // verus!
