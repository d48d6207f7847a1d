[package]
name = "bemyvpn"
version = "0.1.0"
edition = "2021"
publish = false

[dependencies]
rand = "=0.8.8"
serde = { version = "=1.0.229", features = ["derive"] }
serde_json = "=1.0.154"
toml = "=0.8.23"
tokio = { version = "=1.54.1", features = ["full"] }
async-trait = "=0.1.92"
socket2 = "=0.5.10"
thiserror = "=1.0.69"
libc = "=0.2.191"
parking_lot = "=0.12.5"
once_cell = "=1.21.4"
hyper = { version = "=1.12.0", features = ["client", "http1"] }
hyper-util = { version = "=0.1.21", features = ["client-legacy", "http1", "tokio"] }
http-body-util = "=0.1.5"
hyper-rustls = { version = "=0.27.10", default-features = false, features = ["http1", "webpki-roots", "ring"] }
tun = { version = "0.6", features = ["async"] }
