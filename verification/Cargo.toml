[package]
name = "kingfisher"
version = "1.0.0"
edition = "2021"
publish = false

[dependencies]
anyhow = "1"
base64 = "=0.22.1"
chrono = "=0.4.45"
clap = { version = "4", features = ["derive"] }
crossbeam-channel = "0.5"
crossbeam-skiplist = "0.1"
gitlab = { version = "=0.1905.0", default-features = false, features = ["client_api"] }
gix = { version = "=0.80.0", default-features = false }
hmac = "=0.12.1"
ignore = "=0.4.34"
indicatif = "=0.18.6"
# The strings of liquid, held back: version 2.0.5 needs a newer compiler than Rust 1.95.
kstring = "=2.0.2"
liquid = "=0.26.11"
liquid-core = { version = "=0.26.11", features = ["derive"] }
num_cpus = "1"
pem = "=3.0.6"
percent-encoding = "=2.3.2"
rand = "=0.9.5"
rayon = "1"
reqwest = { version = "=0.12.28", default-features = false, features = ["rustls-tls"] }
ring = "=0.17.14"
serde = { version = "1", features = ["derive"] }
serde_json = { version = "=1.0.154", features = ["preserve_order"] }
sha1 = "=0.10.7"
sha2 = "=0.10.9"
time = { version = "=0.3.55", features = ["formatting", "parsing"] }
tokio = { version = "1", features = ["rt", "sync", "time"] }
tracing = "0.1"
url = "=2.5.8"
uuid = { version = "=1.29.0", features = ["v4"] }
