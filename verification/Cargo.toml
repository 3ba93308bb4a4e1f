[package]
name = "tunnel_mate"
version = "0.1.0"
edition = "2021"
publish = false

[dependencies]
uuid = { version = "=1.29.0", features = ["v4"] }
chrono = "=0.4.45"
keyring = { version = "=3.6.3", features = ["apple-native", "windows-native", "linux-native"] }
dirs = "=7.0.0"
ring = "=0.17.14"
regex = "=1.13.1"
russh = "=0.65.1"
serde = { version = "=1.0.229", features = ["derive"] }
serde_json = "=1.0.154"
tokio = { version = "=1.54.1", features = ["full"] }
sys-locale = "=0.3.2"
tempfile = "=3.27.0"
auto-launcher = "=1.1.0"
