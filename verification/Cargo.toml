[package]
name = "p2p_engine"
version = "0.1.0"
edition = "2021"
publish = false

[dependencies]
libp2p = { version = "=0.56.0", features = ["tcp", "dns", "quic", "websocket", "noise", "yamux", "tokio", "gossipsub", "kad", "identify", "ping", "request-response", "macros", "ed25519", "secp256k1"] }
tokio = { version = "=1.54.1", features = ["sync", "rt", "time"] }
parity-scale-codec = { version = "=3.7.5" }
serde = { version = "=1.0.229", features = ["derive"] }
serde_json = { version = "=1.0.154" }
futures = { version = "=0.3.34" }
async-std = { version = "=1.13.2" }
tracing = { version = "=0.1.44" }
