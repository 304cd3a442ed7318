//! Authenticated encryption of event files and the key material behind it.

pub mod cipher;
pub mod keypair;

pub use cipher::{decrypt, detect_preferred_cipher, encrypt, Cipher};
pub use keypair::{public_key_from_hex, public_key_to_hex, KeyPair, PublicKey, SecretKey};
