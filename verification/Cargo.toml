[package]
name = "shadow_host"
version = "0.1.0"
edition = "2021"
publish = false

[dependencies]
atomic_refcell = "=0.1.14"
anyhow = "=1.0.104"
futures = "=0.3.34"
libc = "=0.2.191"
libp2p = { version = "=0.53.2", default-features = false, features = ["tokio", "tcp", "noise", "yamux", "gossipsub", "macros", "ed25519"] }
# neli's trace messages look beyond the end of a short message, so they are compiled out
log = { version = "=0.4.35", features = ["max_level_debug"] }
neli = "=0.6.5"
nix = "=0.26.4"
rand = "=0.8.8"
rand_chacha = "=0.3.1"
ring = "=0.17.14"
serde = { version = "=1.0.229", features = ["derive"] }
serde_json = "=1.0.154"
tokio = { version = "=1.54.1", features = ["macros", "rt-multi-thread", "sync", "time", "fs", "io-util"] }
