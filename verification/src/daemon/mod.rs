//! What the daemon decides: the pairing state machine and the checks of
//! its control surface.

pub mod api_token;
pub mod http_api;
pub mod ipc;
pub mod pairing;

pub use api_token::ApiTokenManager;
pub use pairing::{
    PairingCommand, PairingEffect, PairingRequest, PairingResponse, PairingResult, PairingState,
};
