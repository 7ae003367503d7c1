[package]
name = "ferro"
version = "0.1.0"
edition = "2021"
publish = false

[dependencies]
serde = { version = "1", features = ["derive"] }
serde_json = "1"
typetag = "0.1"
rusoto_cloudformation = "0.42"
rusoto_core = "0.42"
rusoto_credential = "0.42"
rusoto_signature = "0.42"
