//! The event model: vector clocks, events and envelopes, sealed event
//! files and the per-device log.

pub mod clock;
pub mod log;
pub mod order;
pub mod storage;
pub mod types;

pub use clock::VectorClock;
pub use log::EventLog;
pub use storage::{EventFile, LogError, EVENT_VERSION};
pub use types::{Event, EventEnvelope, ExtensionSource, PrefValue};
