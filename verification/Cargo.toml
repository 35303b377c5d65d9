[package]
name = "navni"
version = "0.1.0"
edition = "2021"
publish = false

[dependencies]
anyhow = "=1.0.104"
base64 = "=0.23.1"
crossterm = "=0.29.0"
dirs = "=7.0.0"
image = { version = "=0.25.10", default-features = false, features = ["png"] }
log = "=0.4.34"
miniquad = "=0.4.11"
num-traits = "=0.2.19"
quad-storage = "=0.1.3"
rustc-hash = "=2.1.3"
serde = { version = "=1.0.229", features = ["derive"] }
serde_with = "=3.24.0"
signal-hook = "=0.4.5"
syslog = "=7.0.0"

[dev-dependencies]
fraction = { version = "*", default-features = false }
