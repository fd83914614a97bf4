[package]
name = "ws_contract"
version = "0.1.0"
edition = "2021"
publish = false

[dependencies]
rust_decimal = { version = "1", features = ["serde-with-str"] }
rust_decimal_macros = "1"
ed25519-dalek = "2"
base64 = "0.21"
semver = { version = "1", features = ["serde"] }
url = { version = "2", features = ["serde"] }
serde = { version = "1", features = ["derive"] }
serde_json = "1"
humantime-serde = "1"
axum = "0.6"
hyper = { version = "0.14", features = ["full"] }
http = "0.2"
tokio = { version = "1", features = ["full"] }
tower = "0.4"
tower-http = { version = "0.4", features = ["normalize-path"] }
async-trait = "0.1"
once_cell = "1"
log = "0.4"
