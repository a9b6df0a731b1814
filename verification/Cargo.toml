[package]
name = "ipiis"
version = "0.1.0"
edition = "2021"
publish = false

[dependencies]
ed25519-dalek = { version = "=2.2.0", features = ["rand_core"] }
rand = "=0.8.8"
rkyv = "=0.7.46"
bytecheck = "=0.6.12"
futures = "=0.3.34"
quinn = "=0.8.5"
rustls = "=0.20.9"
rustls-native-certs = "=0.6.3"
tokio = { version = "1", features = ["rt-multi-thread", "macros", "io-util", "net", "sync"] }
rcgen = "0.9"
anyhow = "1"
