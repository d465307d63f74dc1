[package]
name = "iela"
version = "0.1.0"
edition = "2021"
publish = false

[dependencies]
anyhow = "1"
axum = "0.6"
clap = { version = "4", features = ["derive"] }
diesel = { version = "2.1", features = ["postgres", "r2d2"] }
ethers = { version = "2", default-features = false }
hex = "0.4"
http = "0.2"
lazy_static = "1.4"
r2d2 = "0.8"
serde = { version = "1", features = ["derive"] }
serde_json = "1"
tokio = { version = "1", features = ["full"] }
tower-http = { version = "0.4", features = ["cors"] }
