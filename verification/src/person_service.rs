//! The mutation coordinator: the one place where a person mutation and its
//! outbox event are applied as a single atomic step.  Either the person
//! table and the outbox both change — the mutation plus exactly one event
//! describing it — or, on any failure, neither does.

use vstd::prelude::*;

use crate::clock::now_micros;
use crate::errors::StoreError;
use crate::ids::fresh_id;
use crate::outbox::fresh_message;
use crate::outbox::has_event_id;
use crate::outbox::MessageView;
use crate::outbox::Outbox;
use crate::payload::delete_payload;
use crate::payload::delete_payload_chars;
use crate::payload::person_payload;
use crate::payload::person_payload_chars;
use crate::person_db::clone_opt_string;
use crate::person_db::has_person_id;
use crate::person_db::index_of_id;
use crate::person_db::insert_pos;
use crate::person_db::page;
use crate::person_db::persisted_view;
use crate::person_db::updated_view;
use crate::person_db::NewPersonRecord;
use crate::person_db::PersonDb;
use crate::person_db::PersonRecord;
use crate::person_db::PersonView;

verus! {

/// The channel every person event is published to.
pub open spec fn person_topic() -> Seq<char> {
    "user_events"@
}

/// The event name of a creation.
pub open spec fn created_event_name() -> Seq<char> {
    "created"@
}

/// The event name of an update.
pub open spec fn updated_event_name() -> Seq<char> {
    "updated"@
}

/// The event name of a deletion.
pub open spec fn deleted_event_name() -> Seq<char> {
    "deleted"@
}

/// The fields of a creation request, as received from a caller.  The id and
/// the timestamps of the stored row are assigned elsewhere.
pub struct CreateUserRequest {
    pub first_name: String,
    pub middle_name: Option<String>,
    pub last_name: String,
    pub suffix: Option<String>,
}

impl CreateUserRequest {
    /// The record a creation under `id` at time `created_date_time` asks
    /// the store to persist.
    pub fn to_new_record(&self, id: u128, created_date_time: i64) -> (r: NewPersonRecord)
        ensures
            r.id == id,
            r.first_name@ == self.first_name@,
            r.middle_name.deep_view() == self.middle_name.deep_view(),
            r.last_name@ == self.last_name@,
            r.suffix.deep_view() == self.suffix.deep_view(),
            r.created_date_time == created_date_time,
    {
        NewPersonRecord {
            id: id,
            first_name: self.first_name.clone(),
            middle_name: clone_opt_string(&self.middle_name),
            last_name: self.last_name.clone(),
            suffix: clone_opt_string(&self.suffix),
            created_date_time: created_date_time,
        }
    }
}

/// The person store and its outbox, mutated only together.
pub struct PersonService {
    pub person_db: PersonDb,
    pub outbox: Outbox,
}

impl PersonService {
    /// Both halves well formed.
    pub open spec fn wf(&self) -> bool {
        self.person_db.wf() && self.outbox.wf()
    }

    /// An empty store with an empty outbox.
    pub fn new() -> (s: Self)
        ensures
            s.person_db@ == Seq::<PersonView>::empty(),
            s.outbox@ == Seq::<MessageView>::empty(),
            s.wf(),
    {
        PersonService { person_db: PersonDb::new(), outbox: Outbox::new() }
    }

    /// Point lookup; absence is a normal outcome, not an error.
    pub fn get_user_by_id(&self, id: u128) -> (r: Option<PersonRecord>)
        requires
            self.wf(),
        ensures
            match r {
                Some(p) => has_person_id(self.person_db@, id) && p@ == self.person_db@[index_of_id(
                    self.person_db@,
                    id,
                )],
                None => !has_person_id(self.person_db@, id),
            },
    {
        self.person_db.get_by_id(id)
    }

    /// The page `[offset, offset + limit)` of the table, newest row first.
    pub fn list_users(&self, offset: i64, limit: i64) -> (r: Result<
        Vec<PersonRecord>,
        StoreError,
    >)
        ensures
            match r {
                Ok(v) => offset >= 0 && limit >= 0 && v.deep_view() == page(
                    self.person_db@,
                    offset as int,
                    limit as int,
                ),
                Err(e) => e == StoreError::InvalidPagination && (offset < 0 || limit < 0),
            },
    {
        self.person_db.list(offset, limit)
    }

    /// Creates a person and enqueues its `created` event under the given
    /// event id, atomically: it succeeds, changing both tables, exactly
    /// when neither the person id nor the event id is taken; on failure
    /// nothing changes.
    pub fn create_user_tx(&mut self, user: &NewPersonRecord, event_id: u128, now: i64) -> (r:
        Result<PersonRecord, StoreError>)
        requires
            old(self).wf(),
        ensures
            final(self).wf(),
            r is Ok <==> !has_person_id(old(self).person_db@, user.id) && !has_event_id(
                old(self).outbox@,
                event_id,
            ),
            match r {
                Ok(p) => p@ == persisted_view(*user, now) && final(self).person_db@ == old(self).person_db@.insert(insert_pos(old(self).person_db@, now), p@) && final(self).outbox@ == old(self).outbox@.push(
                    fresh_message(
                        event_id,
                        person_topic(),
                        created_event_name(),
                        person_payload_chars(p@),
                        now,
                    ),
                ),
                Err(e) => e == StoreError::DuplicateId && final(self).person_db@ == old(self).person_db@ && final(self).outbox@ == old(self).outbox@,
            },
    {
        if self.outbox.contains_event_id(event_id) {
            return Err(StoreError::DuplicateId);
        }
        match self.person_db.create(user, now) {
            Err(e) => Err(e),
            Ok(p) => {
                let payload = person_payload(&p);
                match self.outbox.insert_event(event_id, "user_events", "created", payload, now) {
                    Ok(()) => Ok(p),
                    Err(e) => {
                        proof {
                            assert(false);
                        }
                        Err(e)
                    },
                }
            },
        }
    }

    /// Creates a person and enqueues its `created` event, atomically,
    /// under a freshly drawn event id, stamped with the current time.  A
    /// taken person id is rejected; on any failure nothing changes.
    pub fn create_user(&mut self, user: &NewPersonRecord) -> (r: Result<PersonRecord, StoreError>)
        requires
            old(self).wf(),
        ensures
            final(self).wf(),
            has_person_id(old(self).person_db@, user.id) ==> r is Err,
            // failure needs a collision to blame: a taken person id, or a
            // drawn event id meeting a non-empty log
            r is Err ==> has_person_id(old(self).person_db@, user.id) || old(self).outbox@.len()
                > 0,
            match r {
                Ok(p) => !has_person_id(old(self).person_db@, user.id) && p.id == user.id && p@
                    == persisted_view(*user, p.created_date_time) && final(self).person_db@ == old(self).person_db@.insert(
                    insert_pos(old(self).person_db@, p.created_date_time),
                    p@,
                ) && final(self).outbox@.len() == old(self).outbox@.len() + 1 && final(self).outbox@ == old(self).outbox@.push(final(self).outbox@.last()) && !has_event_id(
                    old(self).outbox@,
                    final(self).outbox@.last().id,
                ) && final(self).outbox@.last() == fresh_message(
                    final(self).outbox@.last().id,
                    person_topic(),
                    created_event_name(),
                    person_payload_chars(p@),
                    p.created_date_time,
                ),
                Err(e) => e == StoreError::DuplicateId && final(self).person_db@ == old(self).person_db@ && final(self).outbox@ == old(self).outbox@,
            },
    {
        let event_id = fresh_id();
        let now = now_micros();
        self.create_user_tx(user, event_id, now)
    }

    /// Replaces the person's name fields and enqueues its `updated`
    /// event under the given event id, atomically: it succeeds, changing
    /// both tables, exactly when the person exists and the event id is
    /// free; on failure nothing changes.
    pub fn update_user_tx(&mut self, user: &PersonRecord, event_id: u128, now: i64) -> (r: Result<
        PersonRecord,
        StoreError,
    >)
        requires
            old(self).wf(),
        ensures
            final(self).wf(),
            r is Ok <==> has_person_id(old(self).person_db@, user.id) && !has_event_id(
                old(self).outbox@,
                event_id,
            ),
            match r {
                Ok(p) => ({
                    let k = index_of_id(old(self).person_db@, user.id);
                    p@ == updated_view(*user, old(self).person_db@[k].created_date_time, now)
                        && final(self).person_db@ == old(self).person_db@.update(k, p@) && final(self).outbox@ == old(self).outbox@.push(
                        fresh_message(
                            event_id,
                            person_topic(),
                            updated_event_name(),
                            person_payload_chars(p@),
                            now,
                        ),
                    )
                }),
                Err(e) => final(self).person_db@ == old(self).person_db@ && final(self).outbox@
                    == old(self).outbox@ && (e == StoreError::NotFound <==> !has_person_id(
                    old(self).person_db@,
                    user.id,
                )) && (e == StoreError::DuplicateId <==> has_person_id(
                    old(self).person_db@,
                    user.id,
                ) && has_event_id(old(self).outbox@, event_id)),
            },
    {
        if !self.person_db.contains_id(user.id) {
            return Err(StoreError::NotFound);
        }
        if self.outbox.contains_event_id(event_id) {
            return Err(StoreError::DuplicateId);
        }
        match self.person_db.update(user, now) {
            Err(e) => {
                proof {
                    assert(false);
                }
                Err(e)
            },
            Ok(p) => {
                let payload = person_payload(&p);
                match self.outbox.insert_event(
                    event_id,
                    "user_events",
                    "updated",
                    payload,
                    now,
                ) {
                    Ok(()) => Ok(p),
                    Err(e) => {
                        proof {
                            assert(false);
                        }
                        Err(e)
                    },
                }
            },
        }
    }

    /// Replaces the person's name fields and enqueues its `updated`
    /// event, atomically, under a freshly drawn event id, stamped with the
    /// current time.  An unknown person id is rejected with `NotFound`; on
    /// any failure nothing changes.
    pub fn update_user(&mut self, user: &PersonRecord) -> (r: Result<PersonRecord, StoreError>)
        requires
            old(self).wf(),
        ensures
            final(self).wf(),
            !has_person_id(old(self).person_db@, user.id) ==> r == Result::<
                PersonRecord,
                StoreError,
            >::Err(StoreError::NotFound),
            // failure needs a collision to blame: an absent person, or a
            // drawn event id meeting a non-empty log
            r is Err ==> !has_person_id(old(self).person_db@, user.id) || old(self).outbox@.len()
                > 0,
            match r {
                Ok(p) => has_person_id(old(self).person_db@, user.id) && ({
                    let k = index_of_id(old(self).person_db@, user.id);
                    p@ == updated_view(
                        *user,
                        old(self).person_db@[k].created_date_time,
                        p@.updated_date_time->0,
                    ) && final(self).person_db@ == old(self).person_db@.update(k, p@) && final(self).outbox@.len() == old(self).outbox@.len() + 1 && final(self).outbox@ == old(self).outbox@.push(final(self).outbox@.last()) && !has_event_id(
                        old(self).outbox@,
                        final(self).outbox@.last().id,
                    ) && final(self).outbox@.last() == fresh_message(
                        final(self).outbox@.last().id,
                        person_topic(),
                        updated_event_name(),
                        person_payload_chars(p@),
                        p@.updated_date_time->0,
                    )
                }),
                Err(e) => final(self).person_db@ == old(self).person_db@ && final(self).outbox@
                    == old(self).outbox@ && (e == StoreError::NotFound ==> !has_person_id(
                    old(self).person_db@,
                    user.id,
                )),
            },
    {
        let event_id = fresh_id();
        let now = now_micros();
        self.update_user_tx(user, event_id, now)
    }

    /// Deletes the person and, exactly when a row was removed, enqueues its
    /// `deleted` event under the given event id, atomically.  Deleting
    /// an absent id returns `Ok(false)`, changes nothing and enqueues
    /// nothing; a removed row and its event are committed together or not
    /// at all.
    pub fn delete_user_tx(&mut self, id: u128, event_id: u128, now: i64) -> (r: Result<
        bool,
        StoreError,
    >)
        requires
            old(self).wf(),
        ensures
            final(self).wf(),
            !has_person_id(old(self).person_db@, id) ==> r == Result::<bool, StoreError>::Ok(false)
                && final(self).person_db@ == old(self).person_db@ && final(self).outbox@ == old(self).outbox@,
            has_person_id(old(self).person_db@, id) && has_event_id(old(self).outbox@, event_id)
                ==> r == Result::<bool, StoreError>::Err(StoreError::DuplicateId) && final(self).person_db@ == old(self).person_db@ && final(self).outbox@ == old(self).outbox@,
            has_person_id(old(self).person_db@, id) && !has_event_id(old(self).outbox@, event_id)
                ==> r == Result::<bool, StoreError>::Ok(true) && final(self).person_db@ == old(self).person_db@.remove(index_of_id(old(self).person_db@, id)) && final(self).outbox@
                == old(self).outbox@.push(
                fresh_message(
                    event_id,
                    person_topic(),
                    deleted_event_name(),
                    delete_payload_chars(id),
                    now,
                ),
            ),
    {
        if !self.person_db.contains_id(id) {
            return Ok(false);
        }
        if self.outbox.contains_event_id(event_id) {
            return Err(StoreError::DuplicateId);
        }
        let removed = self.person_db.delete(id);
        proof {
            assert(removed);
        }
        let payload = delete_payload(id);
        match self.outbox.insert_event(event_id, "user_events", "deleted", payload, now) {
            Ok(()) => Ok(true),
            Err(e) => {
                proof {
                    assert(false);
                }
                Err(e)
            },
        }
    }

    /// Deletes the person and, exactly when a row was removed, enqueues its
    /// `deleted` event, atomically, under a freshly drawn event id,
    /// stamped with the current time.  Deleting an absent id returns
    /// `Ok(false)` and enqueues nothing; on any failure nothing changes.
    pub fn delete_user(&mut self, id: u128) -> (r: Result<bool, StoreError>)
        requires
            old(self).wf(),
        ensures
            final(self).wf(),
            !has_person_id(old(self).person_db@, id) ==> r == Result::<bool, StoreError>::Ok(false)
                && final(self).person_db@ == old(self).person_db@ && final(self).outbox@ == old(self).outbox@,
            // `Ok(false)` means nothing existed: a present row is removed or
            // the call fails, never reported as a no-op
            r == Result::<bool, StoreError>::Ok(false) ==> !has_person_id(
                old(self).person_db@,
                id,
            ),
            // failure needs a collision to blame: the drawn event id met a
            // non-empty log
            r is Err ==> has_person_id(old(self).person_db@, id) && old(self).outbox@.len() > 0
                && final(self).person_db@ == old(self).person_db@ && final(self).outbox@ == old(self).outbox@,
            r == Result::<bool, StoreError>::Ok(true) ==> has_person_id(old(self).person_db@, id)
                && final(self).person_db@ == old(self).person_db@.remove(
                index_of_id(old(self).person_db@, id),
            ) && final(self).outbox@.len() == old(self).outbox@.len() + 1 && final(self).outbox@
                == old(self).outbox@.push(final(self).outbox@.last()) && !has_event_id(
                old(self).outbox@,
                final(self).outbox@.last().id,
            ) && final(self).outbox@.last() == fresh_message(
                final(self).outbox@.last().id,
                person_topic(),
                deleted_event_name(),
                delete_payload_chars(id),
                final(self).outbox@.last().created_date_time,
            ),
    {
        let event_id = fresh_id();
        let now = now_micros();
        self.delete_user_tx(id, event_id, now)
    }
}

} // verus!
