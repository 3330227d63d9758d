[package]
name = "arc"
version = "0.1.0"
edition = "2021"
publish = false

[dependencies]
aes-gcm = "=0.10.3"
aws-lc-sys = "=0.47.0"
axum = { version = "=0.8.9", features = ["ws"] }
base64 = "=0.22.1"
blake2 = "=0.10.6"
ciborium = "=0.2.2"
clap = { version = "=4.6.7", features = ["derive"] }
dashmap = "=6.2.1"
enigo = { version = "*", default-features = false, features = ["x11rb"] }
futures-util = { version = "=0.3.34", features = ["sink"] }
getrandom = "=0.2.17"
hkdf = "=0.12.4"
ignore = "=0.4.34"
image = { version = "=0.25.10", default-features = false, features = ["png", "webp"] }
notify = "=8.2.1"
num-bigint-dig = "=0.8.6"
rand = "=0.8.8"
rcgen = { version = "=0.13.2", default-features = false, features = ["pem", "aws_lc_rs"] }
rmcp = { version = "=3.8.0", features = ["server", "macros", "transport-io"] }
roxmltree = "=0.20.0"
rsa = { version = "=0.9.10", features = ["pem"] }
serde = { version = "=1.0.229", features = ["derive"] }
serde_json = "=1.0.154"
sha2 = "=0.10.9"
snow = "=0.9.6"
spake2 = "=0.4.0"
tokio = { version = "=1.54.1", features = ["full"] }
tokio-rustls = "=0.26.6"
tokio-tungstenite = "=0.24.0"
toml = "=0.8.23"
