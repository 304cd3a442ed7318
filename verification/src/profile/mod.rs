//! What the library knows of a browser profile: the entities that are
//! scanned from it, the writes that are deferred while the browser runs,
//! and the container format of its compressed files.

pub mod entities;
pub mod mozlz4;
pub mod prefs;
pub mod scan;
pub mod write_queue;

pub use entities::{is_browser_running, Container, Extension, Handler, SearchEngine};
pub use mozlz4::{decode_mozlz4, encode_mozlz4};
pub use write_queue::{PendingWrite, WriteQueue};
