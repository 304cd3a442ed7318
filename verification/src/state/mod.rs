//! The state index: the materialised result of the applied events.

pub mod db;
pub mod materialize;

pub use db::{PendingTab, StateDb};
pub use materialize::{materialize_events, pref_to_storage};
