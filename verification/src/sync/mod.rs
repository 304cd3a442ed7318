//! The sync engine: the diff of the scanned profile against the state
//! index, the merge of event lists, and the decisions of a sync cycle.

pub mod diff;
pub mod engine;
pub mod merge;

pub use crate::state::PendingTab;
pub use diff::{diff_containers, diff_extensions, diff_handlers, diff_prefs};
pub use engine::{SyncEngine, SyncResult};
pub use merge::merge_events;
