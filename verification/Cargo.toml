[package]
name = "wolfpack"
version = "0.1.0"
edition = "2021"
publish = false

[dependencies]
aes-gcm = "0.10"
anyhow = "1"
axum = "0.7"
base64 = "0.22"
chacha20poly1305 = "0.10"
chrono = { version = "0.4", features = ["serde"] }
clap = { version = "4", features = ["derive"] }
dirs = "5"
hex = "0.4"
lz4_flex = "0.11"
notify = "6"
rand = "0.8"
rusqlite = { version = "0.32", features = ["bundled"] }
rust-ini = "0.21"
serde = { version = "1", features = ["derive"] }
serde_json = "1"
sha2 = "0.10"
tempfile = "3"
tokio = { version = "1", features = ["full"] }
toml = "0.8"
tracing = "0.1"
tracing-subscriber = { version = "0.3", features = ["env-filter"] }
uuid = { version = "1", features = ["v7", "serde"] }
x25519-dalek = { version = "2", features = ["static_secrets"] }
zip = { version = "2", default-features = false, features = ["deflate"] }
zstd = "0.13"
