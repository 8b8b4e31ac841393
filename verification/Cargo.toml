[package]
name = "pinentry_omarchy"
version = "0.2.1"
edition = "2021"
publish = false

[dependencies]
zeroize = { version = "1", features = ["serde"] }
serde = { version = "1", features = ["derive"] }
serde_json = "1"
nix = { version = "0.29", features = ["mman", "socket", "user", "process"] }
