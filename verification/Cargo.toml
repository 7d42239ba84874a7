[package]
name = "praxis"
version = "0.1.0"
edition = "2021"
publish = false

[dependencies]
arc-swap = "=1.9.3"
async-trait = "0.1"
bytes = "=1.12.1"
http = "=1.5.0"
metrics = "=0.24.6"
pingora-core = "=0.8.1"
pingora-http = "=0.8.1"
pingora-proxy = "=0.8.1"
tokio = { version = "=1.54.1", features = ["full"] }
tracing = "0.1"
