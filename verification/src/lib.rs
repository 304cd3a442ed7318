//! Peer-to-peer synchronisation of browser-profile state across a small
//! fleet of paired devices: event log, vector clocks, materialised state
//! index, diff engine, write deferral and the pairing state machine.

pub mod client;
pub mod config;
pub mod crypto;
pub mod daemon;
pub mod events;
pub mod extensions;
pub mod net;
pub mod profile;
pub mod state;
pub mod sync;
pub mod table;
pub mod text;
