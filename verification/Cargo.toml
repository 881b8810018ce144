[package]
name = "responses_bridge"
version = "0.1.0"
edition = "2021"
publish = false

[dependencies]
aho-corasick = "1"
async-stream = "0.3"
axum = { version = "0.7", default-features = false }
bytes = "1"
futures = "0.3"
log = "0.4"
reqwest = { version = "0.12", default-features = false, features = ["stream"] }
serde_json = "1"
sha2 = "0.10"
tokio = { version = "1", features = ["macros", "rt", "sync", "time"] }
