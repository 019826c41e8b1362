//! The outbox delivery state machine: pending fetch, retry ceiling,
//! publish idempotence, error bookkeeping.

use personsvc::errors::StoreError;
use personsvc::outbox::EventStatus;
use personsvc::outbox::Outbox;

#[test]
fn insert_event_enqueues_unpublished() {
    let mut outbox = Outbox::new();
    outbox
        .insert_event(5, "user_events", "created", String::from("{}"), 1_000)
        .unwrap();
    let all = outbox.all_messages();
    assert_eq!(all.len(), 1);
    let m = &all[0];
    assert_eq!(m.id, 5);
    assert_eq!(m.topic, "user_events");
    assert_eq!(m.event_name, "created");
    assert_eq!(m.payload, "{}");
    assert_eq!(m.status, EventStatus::Unpublished);
    assert_eq!(m.created_date_time, 1_000);
    assert_eq!(m.published_date_time, None);
    assert_eq!(m.error_count, 0);
    assert_eq!(m.error_message, None);
}

#[test]
fn insert_event_rejects_duplicate_id() {
    let mut outbox = Outbox::new();
    outbox
        .insert_event(5, "user_events", "created", String::from("a"), 1)
        .unwrap();
    let r = outbox.insert_event(5, "user_events", "updated", String::from("b"), 2);
    assert_eq!(r, Err(StoreError::DuplicateId));
    let all = outbox.all_messages();
    assert_eq!(all.len(), 1);
    assert_eq!(all[0].payload, "a");
}

#[test]
fn insert_draws_fresh_ids() {
    let mut outbox = Outbox::new();
    outbox
        .insert("user_events", "created", String::from("x"))
        .unwrap();
    outbox
        .insert("user_events", "created", String::from("y"))
        .unwrap();
    let all = outbox.all_messages();
    assert_eq!(all.len(), 2);
    assert_ne!(all[0].id, all[1].id);
    assert_eq!(all[0].status, EventStatus::Unpublished);
    assert_eq!(all[1].status, EventStatus::Unpublished);
}

#[test]
fn get_pending_skips_published_and_caps_batch() {
    let mut outbox = Outbox::new();
    for i in 0..60u128 {
        outbox
            .insert_event(i, "user_events", "created", String::from("p"), i as i64)
            .unwrap();
    }
    outbox.clear_event(3);
    let pending = outbox.get_pending_messages();
    assert_eq!(pending.len(), 50);
    assert!(pending.iter().all(|m| m.id != 3));
    // log order is kept: ids ascend, with 3 missing
    assert_eq!(pending[0].id, 0);
    assert_eq!(pending[3].id, 4);
}

#[test]
fn retry_ceiling_excludes_after_tenth_failure() {
    let mut outbox = Outbox::new();
    outbox
        .insert_event(7, "user_events", "created", String::from("p"), 1)
        .unwrap();
    for _ in 0..9 {
        outbox.errored_event(7);
    }
    let all = outbox.all_messages();
    assert_eq!(all[0].error_count, 9);
    assert_eq!(all[0].status, EventStatus::Errored);
    let pending = outbox.get_pending_messages();
    assert_eq!(pending.len(), 1);
    assert_eq!(pending[0].id, 7);

    outbox.errored_event(7);
    let all = outbox.all_messages();
    assert_eq!(all[0].error_count, 10);
    let pending = outbox.get_pending_messages();
    assert_eq!(pending.len(), 0);
}

#[test]
fn errored_event_keeps_published_date_and_payload() {
    let mut outbox = Outbox::new();
    outbox
        .insert_event(9, "user_events", "created", String::from("p"), 1)
        .unwrap();
    outbox.errored_event(9);
    let all = outbox.all_messages();
    assert_eq!(all[0].status, EventStatus::Errored);
    assert_eq!(all[0].error_count, 1);
    assert_eq!(all[0].published_date_time, None);
    assert_eq!(all[0].payload, "p");
    assert_eq!(all[0].created_date_time, 1);
}

#[test]
fn errored_event_on_unknown_id_changes_nothing() {
    let mut outbox = Outbox::new();
    outbox
        .insert_event(1, "user_events", "created", String::from("p"), 1)
        .unwrap();
    outbox.errored_event(42);
    let all = outbox.all_messages();
    assert_eq!(all.len(), 1);
    assert_eq!(all[0].status, EventStatus::Unpublished);
    assert_eq!(all[0].error_count, 0);
}

#[test]
fn mark_published_is_idempotent() {
    let mut outbox = Outbox::new();
    outbox
        .insert_event(11, "user_events", "created", String::from("p"), 1)
        .unwrap();
    outbox.errored_event(11);
    outbox.clear_event(11);
    let first = outbox.all_messages();
    assert_eq!(first[0].status, EventStatus::Published);
    assert_eq!(first[0].error_count, 0);
    let stamp = first[0].published_date_time;
    assert!(stamp.is_some());

    outbox.clear_event(11);
    let second = outbox.all_messages();
    assert_eq!(second[0].status, EventStatus::Published);
    assert_eq!(second[0].error_count, 0);
    assert_eq!(second[0].published_date_time, stamp);
    // a published row stays out of the pending batch
    assert_eq!(outbox.get_pending_messages().len(), 0);
}

#[test]
fn clear_event_on_unknown_id_changes_nothing() {
    let mut outbox = Outbox::new();
    outbox
        .insert_event(1, "user_events", "created", String::from("p"), 1)
        .unwrap();
    outbox.clear_event(42);
    let all = outbox.all_messages();
    assert_eq!(all.len(), 1);
    assert_eq!(all[0].status, EventStatus::Unpublished);
    assert_eq!(all[0].published_date_time, None);
}

#[test]
fn clear_event_at_sets_stamp_once() {
    let mut outbox = Outbox::new();
    outbox
        .insert_event(2, "user_events", "created", String::from("p"), 1)
        .unwrap();
    outbox.clear_event_at(2, 777);
    outbox.clear_event_at(2, 999);
    let all = outbox.all_messages();
    assert_eq!(all[0].published_date_time, Some(777));
    assert_eq!(all[0].status, EventStatus::Published);
}
