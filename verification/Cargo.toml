[package]
name = "syla"
version = "0.1.0"
edition = "2021"
publish = false

[dependencies]
serde = { version = "1", features = ["derive"] }
serde_json = "1"
toml = "0.8"
chrono = "0.4"
regex = "1"
ureq = "2"
nix = { version = "0.29", features = ["signal"] }
