[package]
name = "port_monitor"
version = "0.1.0"
edition = "2021"
publish = false

[dependencies]
anyhow = "=1.0.104"
auto-launch = "=0.5.0"
confy = "=0.6.1"
crossbeam-channel = "=0.5.17"
env_logger = { version = "=0.11.11", default-features = false }
log = "=0.4.35"
netstat2 = "0.11"
nix = { version = "=0.28.0", features = ["signal"] }
serde = { version = "=1.0.229", features = ["derive"] }
sysinfo = { version = "=0.30.13", default-features = false }
whoami = "=1.6.1"
