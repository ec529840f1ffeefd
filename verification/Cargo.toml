[package]
name = "aionui_server"
version = "0.1.0"
edition = "2021"
publish = false

[dependencies]
anyhow = "1"
axum = { version = "0.8", default-features = false }
getrandom = "0.2"
sha2 = "0.10"
tracing = "0.1"
