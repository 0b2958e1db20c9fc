[package]
name = "walle_core"
version = "0.1.0"
edition = "2021"
publish = false

[dependencies]
serde = "1"
serde_json = { version = "1", features = ["preserve_order"] }
rmp-serde = "1"
uuid = "1"
tokio = { version = "1", features = ["sync", "rt", "macros", "time"] }
async-trait = "0.1"
