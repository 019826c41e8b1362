//! A person store built around the transactional outbox pattern: every
//! state-changing mutation of a person row appends, in the same atomic step,
//! exactly one outbox event describing it.  The outbox keeps a bounded-retry
//! delivery ledger (`unpublished` / `published` / `errored`) that an external
//! relay drains through `get_pending_messages`, `clear_event` and
//! `errored_event`.

pub mod clock;
pub mod errors;
pub mod ids;
pub mod json;
pub mod outbox;
pub mod payload;
pub mod person_db;
pub mod person_service;
