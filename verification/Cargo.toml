[package]
name = "mini_proxad"
version = "0.1.0"
edition = "2021"
publish = false

[dependencies]
anyhow = "=1.0.104"
async-trait = "=0.1.92"
byte-unit = { version = "=5.2.6", features = ["serde"] }
bytes = "=1.12.1"
chrono = "=0.4.45"
clap = { version = "=4.6.7", features = ["derive"] }
etherparse = "=0.21.0"
form_urlencoded = "=1.2.2"
futures-util = "=0.3.34"
http = "=1.5.0"
http-body-util = "=0.1.5"
humantime-serde = "=1.1.1"
hyper = { version = "=1.12.0", features = ["full"] }
hyper-util = { version = "=0.1.21", features = ["tokio"] }
inotify = "=0.11.5"
pcap-file = "=2.0.0"
pyo3 = { version = "=0.30.1", features = ["chrono", "uuid"] }
rlimit = "=0.11.0"
rustls = { version = "=0.23.46", default-features = false, features = ["ring", "std", "tls12", "logging"] }
serde = { version = "=1.0.229", features = ["derive"] }
serde_yaml = "=0.9.34+deprecated"
strfmt = "=0.2.6"
tempfile = "=3.27.0"
tokio = { version = "=1.54.1", features = ["full"] }
tokio-rustls = { version = "=0.26.6", default-features = false, features = ["ring", "tls12", "logging"] }
tracing = "=0.1.44"
tracing-subscriber = { version = "=0.3.23", features = ["env-filter"] }
uuid = { version = "=1.29.0", features = ["v4"] }
webpki-roots = "=1.0.11"

[dev-dependencies]
httparse = "1"
