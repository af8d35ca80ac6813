[package]
name = "certbot_alfahosting"
version = "0.1.0"
edition = "2021"
publish = false

[dependencies]
rand = "=0.10.3"
regex = "=1.13.1"
serde = { version = "=1.0.229", features = ["derive"] }
toml = "=1.1.8"
headless_chrome = "=0.9.0"
acme-lib = "=0.9.1"
native-tls = "=0.2.18"
imap = "=2.4.1"
