[package]
name = "hath_cache"
version = "0.1.0"
edition = "2021"
publish = false

[dependencies]
openssl = "*"
tokio = { version = "*", features = ["fs", "io-util", "sync", "time", "rt", "rt-multi-thread"] }
axum = { version = "*", default-features = false }
tower = { version = "*", features = ["util"] }
tower-http = { version = "*", features = ["fs"] }
futures = "*"
async-stream = "*"
bytes = "*"
log = "*"
scopeguard = "*"
reqwest = { version = "*", default-features = false, features = ["stream"] }
parking_lot = "*"
mime = "*"
