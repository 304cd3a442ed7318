//! Clients of the optional relay and discovery services.

pub mod discovery;
pub mod relay;

pub use discovery::DiscoveryClient;
pub use relay::RelayClient;
