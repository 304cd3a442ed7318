//! The sync protocol between paired devices: its messages and what a
//! device decides on each of them.

pub mod node;
pub mod protocol;

pub use node::{NetworkCommand, NetworkEvent, Node};
pub use protocol::{EncryptedEvent, SyncCodec, SyncRequest, SyncResponse, PROTOCOL_NAME};
