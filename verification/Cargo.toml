[package]
name = "p2x"
version = "0.1.0"
edition = "2021"
publish = false

[dependencies]
async-trait = "0.1"
base64 = "0.22"
clap = { version = "4", features = ["derive"] }
ed25519-dalek = { version = "2", features = ["rand_core"] }
futures = "0.3"
getrandom = "0.3"
libc = "0.2"
libp2p = { version = "0.56", default-features = false, features = ["dcutr", "ed25519", "identify", "macros", "noise", "ping", "quic", "relay", "request-response", "tcp", "tokio", "yamux"] }
libp2p-identity = { version = "0.2", default-features = false, features = ["ed25519", "peerid", "rand"] }
multiaddr = "0.18"
serde = { version = "1", features = ["derive"] }
serde_json = "1"
serde_yaml = "0.9"
sha2 = "0.10"
subtle = "2"
thiserror = "2"
tokio = { version = "1", features = ["io-util", "macros", "net", "rt-multi-thread", "signal", "sync", "time"] }
tokio-util = { version = "0.7", features = ["compat"] }
web-time = "1"
yaml-rust2 = "0.10"
zeroize = "1"
