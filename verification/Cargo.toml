[package]
name = "contixis"
version = "0.1.0"
edition = "2021"
publish = false

[dependencies]
anyhow = "=1.0.104"
arboard = { version = "=3.7.0", default-features = false }
base64 = "=0.22.1"
bytes = "=1.12.1"
clap = { version = "=4.6.7", features = ["derive"] }
dashmap = "=6.2.1"
dirs = "=5.0.1"
hex = "=0.4.3"
hmac = "=0.12.1"
hostname = "=0.4.2"
libc = "=0.2.191"
mdns-sd = "=0.11.5"
parking_lot = "=0.12.5"
prost = "=0.13.5"
quinn = { version = "=0.11.12", default-features = false, features = ["runtime-tokio", "rustls-ring", "log"] }
rand = "=0.8.8"
rcgen = { version = "=0.13.2", features = ["x509-parser"] }
rustls = { version = "=0.23.46", default-features = false, features = ["ring", "std", "tls12", "logging"] }
rustls-pemfile = "=2.2.0"
serde = { version = "=1.0.229", features = ["derive"] }
serde_json = "=1.0.154"
sha2 = "=0.10.9"
subtle = "=2.6.1"
tokio = { version = "=1.54.1", features = ["full"] }
tracing = "=0.1.44"
tracing-subscriber = { version = "=0.3.23", features = ["env-filter"] }
uuid = { version = "=1.29.0", features = ["v4"] }
x11 = { version = "=2.21.0", features = ["xlib", "xtest", "xrandr"] }
zstd = "=0.13.4"
