[package]
name = "mmb"
version = "0.1.0"
edition = "2021"
publish = false

[dependencies]
anyhow = "1"
async-trait = "0.1"
chrono = "0.4"
log = "0.4"
rust_decimal = "1"
serde = { version = "1", features = ["derive"] }
uuid = { version = "1", features = ["v4"] }
