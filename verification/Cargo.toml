[package]
name = "onboard"
version = "0.1.0"
edition = "2021"
publish = false

[dependencies]
anyhow = "*"
base64 = "*"
futures-util = "*"
hex = "*"
log = "*"
reqwest = { version = "*", default-features = false, features = ["json"] }
ringbuffer = "*"
serde = { version = "*", features = ["derive"] }
serde_json = "*"
serde_yaml = "*"
sha256 = "*"
tokio = { version = "*", features = ["rt-multi-thread", "macros", "time", "process", "fs", "sync"] }
zip = { version = "*", default-features = false, features = ["deflate"] }
