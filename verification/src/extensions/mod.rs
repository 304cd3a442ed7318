//! Extension packages: how a package travels inside an event and how it
//! is unpacked for a profile.

pub mod builder;
pub mod package;

pub use builder::BuildSystem;
pub use package::{
    compress_xpi, decode_base64, decompress_xpi, encode_base64, install_to_profile,
    ExtensionManifest, InstallResult,
};
