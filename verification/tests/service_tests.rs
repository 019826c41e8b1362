//! The mutation coordinator: atomic co-commit of a person mutation and its
//! outbox event, and the read paths around it.

use personsvc::errors::StoreError;
use personsvc::outbox::EventStatus;
use personsvc::person_db::NewPersonRecord;
use personsvc::person_db::PersonRecord;
use personsvc::person_service::CreateUserRequest;
use personsvc::person_service::PersonService;

fn ada(id: u128) -> NewPersonRecord {
    NewPersonRecord {
        id,
        first_name: String::from("Ada"),
        middle_name: None,
        last_name: String::from("Lovelace"),
        suffix: None,
        created_date_time: 0,
    }
}

#[test]
fn create_commits_person_and_event_together() {
    let mut service = PersonService::new();
    let created = service.create_user_tx(&ada(7), 100, 1_000).unwrap();
    assert_eq!(created.id, 7);
    assert_eq!(created.first_name, "Ada");
    assert_eq!(created.last_name, "Lovelace");
    assert_eq!(created.created_date_time, 1_000);
    assert_eq!(created.updated_date_time, None);

    let fetched = service.get_user_by_id(7).unwrap();
    assert_eq!(fetched.first_name, "Ada");

    let events = service.outbox.all_messages();
    assert_eq!(events.len(), 1);
    assert_eq!(events[0].id, 100);
    assert_eq!(events[0].topic, "user_events");
    assert_eq!(events[0].event_name, "created");
    assert_eq!(events[0].status, EventStatus::Unpublished);
    assert_eq!(events[0].error_count, 0);

    let payload: serde_json::Value = serde_json::from_str(&events[0].payload).unwrap();
    assert_eq!(payload.get("id").unwrap().as_u64(), Some(7));
    assert_eq!(payload.get("first_name").unwrap().as_str(), Some("Ada"));
    assert_eq!(payload.get("last_name").unwrap().as_str(), Some("Lovelace"));
    assert!(payload.get("middle_name").unwrap().is_null());
    assert!(payload.get("suffix").unwrap().is_null());
    assert_eq!(payload.get("created_date_time").unwrap().as_i64(), Some(1_000));
    assert!(payload.get("updated_date_time").unwrap().is_null());
}

#[test]
fn outbox_fault_rolls_back_create() {
    let mut service = PersonService::new();
    service.create_user_tx(&ada(1), 100, 10).unwrap();
    // the event id is already taken: the outbox insert fails, and the
    // person write must not survive it
    let r = service.create_user_tx(&ada(2), 100, 20);
    assert_eq!(r.unwrap_err(), StoreError::DuplicateId);
    assert!(service.get_user_by_id(2).is_none());
    assert_eq!(service.outbox.all_messages().len(), 1);
    assert_eq!(service.list_users(0, 10).unwrap().len(), 1);
}

#[test]
fn outbox_fault_rolls_back_update() {
    let mut service = PersonService::new();
    service.create_user_tx(&ada(1), 100, 10).unwrap();
    let mut changed = service.get_user_by_id(1).unwrap();
    changed.last_name = String::from("King");
    let r = service.update_user_tx(&changed, 100, 20);
    assert_eq!(r.unwrap_err(), StoreError::DuplicateId);
    assert_eq!(service.get_user_by_id(1).unwrap().last_name, "Lovelace");
    assert_eq!(service.outbox.all_messages().len(), 1);
}

#[test]
fn outbox_fault_rolls_back_delete() {
    let mut service = PersonService::new();
    service.create_user_tx(&ada(1), 100, 10).unwrap();
    let r = service.delete_user_tx(1, 100, 20);
    assert_eq!(r.unwrap_err(), StoreError::DuplicateId);
    assert!(service.get_user_by_id(1).is_some());
    assert_eq!(service.outbox.all_messages().len(), 1);
}

#[test]
fn duplicate_person_id_is_rejected_without_event() {
    let mut service = PersonService::new();
    service.create_user_tx(&ada(1), 100, 10).unwrap();
    let r = service.create_user_tx(&ada(1), 101, 20);
    assert_eq!(r.unwrap_err(), StoreError::DuplicateId);
    assert_eq!(service.outbox.all_messages().len(), 1);
    assert_eq!(service.list_users(0, 10).unwrap().len(), 1);
}

#[test]
fn update_enqueues_updated_event_with_new_payload() {
    let mut service = PersonService::new();
    service.create_user_tx(&ada(1), 100, 10).unwrap();
    let mut changed = service.get_user_by_id(1).unwrap();
    changed.last_name = String::from("King");
    let updated = service.update_user_tx(&changed, 101, 20).unwrap();
    assert_eq!(updated.last_name, "King");
    assert_eq!(updated.created_date_time, 10);
    assert_eq!(updated.updated_date_time, Some(20));

    let events = service.outbox.all_messages();
    assert_eq!(events.len(), 2);
    assert_eq!(events[1].event_name, "updated");
    let payload: serde_json::Value = serde_json::from_str(&events[1].payload).unwrap();
    assert_eq!(payload.get("last_name").unwrap().as_str(), Some("King"));
    assert_eq!(payload.get("updated_date_time").unwrap().as_i64(), Some(20));
}

#[test]
fn update_of_unknown_person_is_not_found() {
    let mut service = PersonService::new();
    let ghost_row = PersonRecord {
        id: 9,
        first_name: String::from("No"),
        middle_name: None,
        last_name: String::from("One"),
        suffix: None,
        created_date_time: 0,
        updated_date_time: None,
    };
    let r = service.update_user(&ghost_row);
    assert_eq!(r.unwrap_err(), StoreError::NotFound);
    assert_eq!(service.outbox.all_messages().len(), 0);
}

#[test]
fn delete_removes_row_and_enqueues_identifier_payload() {
    let mut service = PersonService::new();
    service.create_user_tx(&ada(1), 100, 10).unwrap();
    let removed = service.delete_user_tx(1, 101, 20).unwrap();
    assert!(removed);
    assert!(service.get_user_by_id(1).is_none());

    let events = service.outbox.all_messages();
    assert_eq!(events.len(), 2);
    assert_eq!(events[1].event_name, "deleted");
    let payload: serde_json::Value = serde_json::from_str(&events[1].payload).unwrap();
    assert_eq!(payload.get("id").unwrap().as_u64(), Some(1));
}

#[test]
fn noop_delete_produces_no_event() {
    let mut service = PersonService::new();
    let removed = service.delete_user(42).unwrap();
    assert!(!removed);
    assert_eq!(service.outbox.all_messages().len(), 0);
    assert_eq!(service.list_users(0, 10).unwrap().len(), 0);
}

#[test]
fn end_to_end_scenario() {
    let mut service = PersonService::new();
    let request = CreateUserRequest {
        first_name: String::from("Ada"),
        middle_name: None,
        last_name: String::from("Lovelace"),
        suffix: None,
    };
    // the caller mints the person id; the store assigns the timestamps and
    // the coordinator draws the event id
    let record = request.to_new_record(77, 0);
    let created = service.create_user(&record).unwrap();
    assert_eq!(created.id, 77);

    let pending = service.outbox.get_pending_messages();
    assert_eq!(pending.len(), 1);
    assert_eq!(pending[0].event_name, "created");
    assert!(pending[0].payload.contains("Ada"));
    assert!(pending[0].payload.contains("Lovelace"));
    let first_event_id = pending[0].id;

    let mut changed = service.get_user_by_id(77).unwrap();
    changed.last_name = String::from("King");
    service.update_user(&changed).unwrap();

    let events = service.outbox.all_messages();
    assert_eq!(events.len(), 2);
    let original = events.iter().find(|m| m.id == first_event_id).unwrap();
    assert_eq!(original.event_name, "created");
    assert!(original.payload.contains("Lovelace"));
    let second = events.iter().find(|m| m.id != first_event_id).unwrap();
    assert_eq!(second.event_name, "updated");
    assert!(second.payload.contains("King"));
}

#[test]
fn pagination_is_deterministic() {
    let mut service = PersonService::new();
    // distinct creation times; the store lists newest first
    service.create_user_tx(&ada(1), 101, 10).unwrap();
    service.create_user_tx(&ada(2), 102, 20).unwrap();
    service.create_user_tx(&ada(3), 103, 30).unwrap();
    service.create_user_tx(&ada(4), 104, 40).unwrap();

    let whole = service.list_users(0, 4).unwrap();
    let ids: Vec<u128> = whole.iter().map(|p| p.id).collect();
    assert_eq!(ids, vec![4, 3, 2, 1]);

    let first = service.list_users(0, 2).unwrap();
    let second = service.list_users(2, 2).unwrap();
    let mut joined: Vec<u128> = first.iter().map(|p| p.id).collect();
    joined.extend(second.iter().map(|p| p.id));
    assert_eq!(joined, ids);
    assert!(first.iter().all(|a| second.iter().all(|b| a.id != b.id)));

    let past_end = service.list_users(10, 5).unwrap();
    assert_eq!(past_end.len(), 0);
}

#[test]
fn equal_creation_times_keep_a_stable_order() {
    let mut service = PersonService::new();
    service.create_user_tx(&ada(1), 101, 10).unwrap();
    service.create_user_tx(&ada(2), 102, 10).unwrap();
    service.create_user_tx(&ada(3), 103, 10).unwrap();
    let once = service.list_users(0, 3).unwrap();
    let again = service.list_users(0, 3).unwrap();
    let a: Vec<u128> = once.iter().map(|p| p.id).collect();
    let b: Vec<u128> = again.iter().map(|p| p.id).collect();
    assert_eq!(a, b);
    assert_eq!(a, vec![1, 2, 3]);
}

#[test]
fn pagination_clips_to_the_table() {
    let mut service = PersonService::new();
    service.create_user_tx(&ada(1), 101, 10).unwrap();
    service.create_user_tx(&ada(2), 102, 20).unwrap();
    let page = service.list_users(1, 100).unwrap();
    assert_eq!(page.len(), 1);
    assert_eq!(page[0].id, 1);
    assert_eq!(service.list_users(i64::MAX, i64::MAX).unwrap().len(), 0);
    assert_eq!(service.list_users(0, 0).unwrap().len(), 0);
}

#[test]
fn negative_pagination_is_rejected() {
    let service = PersonService::new();
    assert_eq!(
        service.list_users(-1, 5).unwrap_err(),
        StoreError::InvalidPagination
    );
    assert_eq!(
        service.list_users(0, -5).unwrap_err(),
        StoreError::InvalidPagination
    );
}
