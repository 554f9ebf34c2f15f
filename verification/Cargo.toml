[package]
name = "pam_daemon"
version = "0.1.0"
edition = "2021"
publish = false

[dependencies]
sha2 = "*"
serde = { version = "1", features = ["derive"] }
serde_json = "1"
rmp-serde = "1"
tokio = { version = "1", features = ["full"] }
nix = { version = "*", features = ["fs", "process", "signal", "user"] }
cap-std = "*"
cap-fs-ext = "*"
