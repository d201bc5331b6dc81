[package]
name = "sslboard_desktop"
version = "0.1.0"
edition = "2021"
publish = false

[dependencies]
idna = "=1.1.0"
aes-gcm = "=0.10.3"
pem = "=3.0.6"
base64 = "=0.22.1"
serde = { version = "=1.0.229", features = ["derive"] }
serde_json = "=1.0.154"
sha2 = "=0.10.9"
hex = "=0.4.3"
anyhow = "=1.0.104"
thiserror = "=2.0.21"
log = "=0.4.35"
env_logger = "=0.11.11"
uuid = { version = "=1.29.0", features = ["v4"] }
chrono = "=0.4.45"
rand = "=0.8.8"
zeroize = "=1.9.1"
x509-parser = { version = "=0.16.0", features = ["verify"] }
rcgen = "=0.13.2"
rusqlite = { version = "=0.32.1", features = ["bundled"] }
keyring = "=3.6.3"
ureq = { version = "=2.12.1", features = ["json"] }
reqwest = { version = "=0.12.28", default-features = false, features = ["blocking", "json", "rustls-tls"] }
instant-acme = { version = "=0.8.5", default-features = false, features = ["hyper-rustls", "ring"] }
rustls-pki-types = "=1.15.1"
tokio = { version = "=1.54.1", features = ["rt-multi-thread"] }
