[package]
name = "latex_bot"
version = "0.1.0"
edition = "2021"
publish = false

[dependencies]
anyhow = "1"
lazy_static = "1"
matrix-sdk = { version = "0.6", default-features = false, features = ["sled", "rustls-tls"] }
mime = "0.3"
proc-macro2 = "1"
quote = "1"
rpassword = "7"
serde = { version = "1", features = ["derive"] }
serde_yaml = "0.9"
syn = { version = "1", features = ["full"] }
tokio = { version = "1", features = ["macros", "rt-multi-thread"] }
tracing-subscriber = "0.3"
url = "2"
