[package]
name = "aivyx"
version = "0.1.0"
edition = "2021"
publish = false

[dependencies]
serde_json = "1"
jsonschema = { version = "*", default-features = false }
uuid = { version = "1", features = ["v4"] }
serde = { version = "1", features = ["derive"] }
thiserror = "2"
async-trait = "0.1"
libc = "0.2"
tokio = { version = "1", features = ["rt", "macros", "sync", "time", "process", "io-util"] }
tokio-util = "0.7"
