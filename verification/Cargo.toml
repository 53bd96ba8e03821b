[package]
name = "api_error"
version = "0.1.0"
edition = "2021"
publish = false

[dependencies]
syn = { version = "2", features = ["full", "extra-traits"] }
proc-macro2 = "1"
quote = "1"
http = "1"
serde_core = "1"
serde_json = "1"
axum-core = "0.5"
