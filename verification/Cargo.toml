[package]
name = "embedded_trials"
version = "0.1.0"
edition = "2021"
publish = false

[dependencies]
heapless = "=0.8.0"
bitvec = "=1.1.1"
calamine = "=0.38.0"
embedded-graphics = "=0.8.2"
wasm-minimal-protocol = "=0.2.1"
log = "=0.4.35"
trouble-host = "=0.8.0"
tokio = { version = "1", features = ["rt-multi-thread", "sync", "time"] }

[dev-dependencies]
zip = { version = "=9.2.2", default-features = false, features = ["deflate"] }
