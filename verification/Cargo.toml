[package]
name = "fangorn"
version = "0.1.0"
edition = "2021"
publish = false

[dependencies]
stylus-sdk = { version = "=0.10.10", default-features = false }
alloy-sol-types = { version = "1", default-features = false }
ink = "=5.0.0"
parity-scale-codec = { version = "=3.7.5", features = ["derive"] }
hex = "=0.4.3"
sp-core-hashing = "=16.0.0"
sp-core = { version = "=38.1.0", default-features = false, features = ["full_crypto", "serde"] }
secrecy = "=0.10.3"
bip39 = { version = "=2.2.2", features = ["rand"] }
iroh-base = { version = "1.4", default-features = false, features = ["key"] }
anyhow = "1"
async-trait = "0.1"
thiserror = "2"
tokio = { version = "1", features = ["sync", "time", "rt"] }
flume = "0.11"
