//! A verified access layer that keeps user records in an embedded key-value store.

pub mod record;
pub mod status;
pub mod store;
