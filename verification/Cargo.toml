[package]
name = "nux-core"
version = "1.0.0"
edition = "2021"
publish = false

[dependencies]
async-trait = "0.1"
axum = { version = "0.7", default-features = false, features = ["http1", "json", "tokio", "query"] }
bincode = "1.3"
clap = { version = "4", default-features = false, features = ["std", "derive", "help", "usage", "error-context"] }
constant_time_eq = "0.3"
diesel = { version = "2.2", features = ["sqlite", "r2d2"] }
dotenvy = "0.15"
futures = "0.3"
hex = "0.4"
libp2p = { version = "0.56", default-features = false, features = ["tokio", "tcp", "noise", "yamux", "quic", "relay", "dcutr", "rendezvous", "ping", "request-response", "identify", "macros", "ed25519"] }
libp2p-stream = "0.4.0-alpha"
rand = "0.8"
reqwest = { version = "0.12", default-features = false, features = ["json"] }
rustix = { version = "0.38", features = ["process"] }
serde = { version = "1", features = ["derive"] }
serde_json = "1"
sha2 = "0.10"
thiserror = "2"
tokio = { version = "1", features = ["rt-multi-thread", "macros", "net", "time", "sync", "io-util", "fs", "signal"] }
tokio-util = { version = "0.7", features = ["compat"] }
toml = "0.8"
toml_edit = "0.22"
tracing = "0.1"
tracing-subscriber = { version = "0.3", default-features = false, features = ["std", "fmt"] }
zeroize = "1"
