[package]
name = "port_kill"
version = "0.1.0"
edition = "2021"
publish = false

[dependencies]
anyhow = "1"
clap = { version = "4", features = ["derive"] }
crossbeam-channel = "0.5"
env_logger = "0.10"
log = "0.4"
nix = { version = "0.27", features = ["signal", "process"] }
serde = { version = "1", features = ["derive"] }
tokio = { version = "1", features = ["full"] }
tray-icon = "*"
winit = "*"
