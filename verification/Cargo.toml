[package]
name = "terminal"
version = "0.1.0"
edition = "2021"
publish = false

[dependencies]
arboard = { version = "3", default-features = false }
base64 = "0.22"
bytemuck = { version = "1", features = ["derive"] }
crossbeam-channel = "0.5"
dirs = "5"
env_logger = { version = "0.11", default-features = false }
fontdue = "0.9"
log = "0.4"
nix = { version = "0.29", features = ["term", "process", "fs", "signal", "ioctl"] }
open = "5"
png = "0.17"
pollster = "0.3"
regex = "1"
rustybuzz = "*"
serde = { version = "1", features = ["derive"] }
toml = "0.8"
unicode-width = "0.2"
winit = { version = "0.30", default-features = false, features = ["x11", "rwh_06"] }
