[package]
name = "ya-http-proxy"
version = "0.1.0"
edition = "2021"
publish = false

[dependencies]
anyhow = "1"
awc = "3"
base64 = "=0.13.1"
chrono = { version = "=0.4.45", features = ["serde"] }
dotenv = "0.15"
envy = "0.4"
flexi_logger = "0.22"
fs2 = "0.4"
futures = "0.3"
http = "=0.2.12"
hyper = { version = "0.14", features = ["full"] }
hyper-rustls = { version = "0.23", features = ["http2"] }
is_executable = "1"
log = "0.4"
nix = "0.23"
percent-encoding = "=2.3.2"
regex = "=1.13.1"
rustls = "0.20"
rustls-pemfile = "=1.0.4"
serde = { version = "1", features = ["derive"] }
serde_json = "1"
serde_yaml = "0.8"
sha3 = "=0.10.9"
structopt = "0.3"
tokio = { version = "1", features = ["full"] }
tokio-rustls = "0.23"
toml = "0.5"
