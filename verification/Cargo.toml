[package]
name = "riaaudio"
version = "0.1.0"
edition = "2021"
publish = false

[dependencies]
feed-rs = "*"
url = "2"
regex = "1"
serde_json = "1"
serde = { version = "1", features = ["derive"] }
serde_yaml = "*"
thiserror = "*"
log = "0.4"
env_logger = "*"
ctrlc = "*"
reqwest = { version = "*", default-features = false, features = ["blocking", "multipart", "json", "rustls-tls"] }
