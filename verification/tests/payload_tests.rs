//! Payload serialization: every payload must be a JSON document an
//! independent parser reads back to exactly the entity's fields.

use personsvc::payload::delete_payload;
use personsvc::payload::person_payload;
use personsvc::person_db::PersonRecord;

fn row(first: &str, middle: Option<&str>, last: &str, suffix: Option<&str>) -> PersonRecord {
    PersonRecord {
        id: 12_345,
        first_name: String::from(first),
        middle_name: middle.map(String::from),
        last_name: String::from(last),
        suffix: suffix.map(String::from),
        created_date_time: 1_700_000_000_000_000,
        updated_date_time: None,
    }
}

#[test]
fn payload_round_trips_plain_fields() {
    let p = row("Ada", Some("Augusta"), "Lovelace", Some("Countess"));
    let s = person_payload(&p);
    let v: serde_json::Value = serde_json::from_str(&s).unwrap();
    assert_eq!(v.get("id").unwrap().as_u64(), Some(12_345));
    assert_eq!(v.get("first_name").unwrap().as_str(), Some("Ada"));
    assert_eq!(v.get("middle_name").unwrap().as_str(), Some("Augusta"));
    assert_eq!(v.get("last_name").unwrap().as_str(), Some("Lovelace"));
    assert_eq!(v.get("suffix").unwrap().as_str(), Some("Countess"));
    assert_eq!(
        v.get("created_date_time").unwrap().as_i64(),
        Some(1_700_000_000_000_000)
    );
    assert!(v.get("updated_date_time").unwrap().is_null());
}

#[test]
fn payload_escapes_quotes_backslashes_and_controls() {
    let tricky = "a\"b\\c\nd\te\u{0007}";
    let p = row(tricky, None, "x", None);
    let s = person_payload(&p);
    let v: serde_json::Value = serde_json::from_str(&s).unwrap();
    assert_eq!(v.get("first_name").unwrap().as_str(), Some(tricky));
}

#[test]
fn payload_escapes_non_ascii_text() {
    let p = row("Ad\u{00e9}le", None, "\u{5c71}\u{7530} \u{1f600}", None);
    let s = person_payload(&p);
    assert!(s.is_ascii());
    let v: serde_json::Value = serde_json::from_str(&s).unwrap();
    assert_eq!(v.get("first_name").unwrap().as_str(), Some("Ad\u{00e9}le"));
    assert_eq!(
        v.get("last_name").unwrap().as_str(),
        Some("\u{5c71}\u{7530} \u{1f600}")
    );
}

#[test]
fn payload_renders_extreme_timestamps() {
    let mut p = row("a", None, "b", None);
    p.created_date_time = i64::MIN;
    p.updated_date_time = Some(i64::MAX);
    let s = person_payload(&p);
    let v: serde_json::Value = serde_json::from_str(&s).unwrap();
    assert_eq!(v.get("created_date_time").unwrap().as_i64(), Some(i64::MIN));
    assert_eq!(v.get("updated_date_time").unwrap().as_i64(), Some(i64::MAX));
}

#[test]
fn payload_renders_full_width_ids() {
    let s = delete_payload(u128::MAX);
    assert!(s.contains("340282366920938463463374607431768211455"));
    assert!(s.starts_with("{\"id\":"));
    assert!(s.ends_with("}"));
}

#[test]
fn delete_payload_holds_the_identifier_alone() {
    let s = delete_payload(42);
    assert_eq!(s, "{\"id\":42}");
}
