[package]
name = "oapi_rustgen"
version = "0.1.0"
edition = "2021"
publish = false

[dependencies]
serde_json = { version = "1", features = ["preserve_order"] }
serde = { version = "1", features = ["derive"] }
async-trait = "0.1"
futures = "0.3"
actix-rt = { version = "2", default-features = false }
actix-web = { version = "4", default-features = false }
awc = { version = "3", default-features = false }
