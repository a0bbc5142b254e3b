[package]
name = "falsedev_api"
version = "0.1.0"
edition = "2021"
publish = false

[dependencies]
base64 = "0.13"
textwrap = "0.16"
image = { version = "0.23", default-features = false, features = ["png", "jpeg", "gif", "bmp"] }
imageproc = { version = "0.22", default-features = false }
rusttype = "0.9"
serde = { version = "1", features = ["derive"] }
serde_json = "1"
tokio = { version = "1", features = ["rt-multi-thread", "fs"] }
reqwest = { version = "0.11", default-features = false, features = ["json", "rustls-tls"] }
rocket = { version = "0.5", features = ["json"] }
figment = { version = "0.10", features = ["toml"] }
lazy_static = "1"
