[package]
name = "matrix_display"
version = "0.1.0"
edition = "2021"
publish = false

[dependencies]
anyhow = "1"
embedded-graphics = "0.7"
embedded-text = "0.5"
matrix-sdk = { version = "0.4", default-features = false, features = ["rustls-tls"] }
rppal = { version = "0.13", features = ["hal"] }
serde = "1"
serde_derive = "1"
sh1106 = "0.4"
tokio = { version = "1", features = ["macros", "rt-multi-thread", "sync"] }
toml = "0.5"
tracing-subscriber = "0.2"
