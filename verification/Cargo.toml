[package]
name = "terminal_emulator"
version = "0.1.0"
edition = "2021"
publish = false

[dependencies]
unicode-width = "*"
unicode-segmentation = "*"
crossterm = "0.27"
tokio = { version = "1", features = ["full"] }
nix = { version = "0.29", features = ["term", "process", "fs", "signal"] }
libc = "0.2"
serde = { version = "1", features = ["derive"] }
toml = "0.8"
thiserror = "1"
log = "0.4"
env_logger = "0.11"
