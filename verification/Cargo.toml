[package]
name = "nexus_view"
version = "0.1.0"
edition = "2021"
publish = false

[dependencies]
chrono = "0.4"
axum = "*"
tower-http = { version = "*", features = ["fs"] }
reqwest = { version = "*", default-features = false }
