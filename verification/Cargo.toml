[package]
name = "womscp_server"
version = "1.0.0"
edition = "2021"
publish = false

[dependencies]
toml = "0.8"
sqlx = { version = "0.8", default-features = false, features = ["runtime-tokio", "sqlite"] }
clap = { version = "4", features = ["derive"] }
tokio = { version = "1", features = ["rt-multi-thread", "macros"] }
