[package]
name = "kvpatch"
version = "0.1.0"
edition = "2021"
publish = false

[dependencies]
serde_json = "1"
json-patch = "*"
anyhow = "1"
consulrs = "*"
tokio = { version = "1", features = ["macros", "rt-multi-thread"] }
