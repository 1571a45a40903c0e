[package]
name = "litevpn"
version = "0.1.0"
edition = "2021"
publish = false

[dependencies]
anyhow = "=1.0.104"
bytes = "=1.12.1"
clap = { version = "=4.6.7", features = ["derive"] }
getrandom = "=0.3.4"
hex = "=0.4.3"
quinn = "=0.11.12"
rcgen = "=0.14.10"
rustls = { version = "=0.23.46", default-features = false, features = ["ring", "std", "logging", "tls12"] }
rustls-pemfile = "=2.2.0"
rustls-pki-types = "=1.15.1"
serde = { version = "=1.0.229", features = ["derive"] }
socket2 = "=0.5.10"
tokio = { version = "=1.54.1", features = ["full"] }
toml = "=0.8.23"
tracing = "=0.1.44"
tracing-subscriber = { version = "=0.3.23", features = ["env-filter"] }
tun-rs = { version = "=2.8.16", features = ["async"] }
