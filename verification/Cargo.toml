[package]
name = "warp_context"
version = "0.1.0"
edition = "2021"
publish = false

[dependencies]
anyhow = "=1.0.104"
chrono = "=0.4.45"
memo-map = "*"
ordered-float = "*"
serde = { version = "=1.0.229", features = ["derive"] }
thiserror = "=2.0.21"
