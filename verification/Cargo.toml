[package]
name = "byra_scale"
version = "0.1.0"
edition = "2021"
publish = false

[dependencies]
chrono = "=0.4.45"
clap = { version = "=4.6.7", features = ["derive"] }
config = { version = "=0.15.27", default-features = false, features = ["toml"] }
embedded-hal = "*"
rppal = { version = "=0.22.1", features = ["hal"] }
serde = { version = "=1.0.229", features = ["derive"] }
