[package]
name = "mylib"
version = "0.1.0"
edition = "2021"
publish = false

[dependencies]
urlencoding = "2"
serde = { version = "1", features = ["derive"] }
serde_json = "1"
reqwest = { version = "0.12", default-features = false, features = ["multipart", "rustls-tls"] }
termion = "4"
tokio = { version = "1", features = ["macros", "rt-multi-thread"] }
