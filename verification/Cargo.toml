[package]
name = "meriadoc"
version = "0.2.1"
edition = "2021"
publish = false

[dependencies]
chrono = "0.4"
dirs = "*"
serde = { version = "1", features = ["derive"] }
serde_json = "1"
serde_yaml = "0.9"
thiserror = "*"
