[package]
name = "qingjian"
version = "0.1.0"
edition = "2021"
publish = false

[dependencies]
sha2 = "0.10"
serde = { version = "1", features = ["derive"] }
toml = "0.8"
toml_edit = "0.22"
clap = { version = "4", features = ["derive", "env"] }
hound = "3"
thiserror = "2"
tracing = "0.1"
tokio = { version = "1", features = ["rt"] }
reqwest = { version = "0.12", default-features = false, features = ["rustls-tls"] }
