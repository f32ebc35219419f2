[package]
name = "jig"
version = "0.1.0"
edition = "2021"
publish = false

[dependencies]
base64 = "=0.22.1"
chrono = "=0.4.45"
clap = { version = "=4.6.7", features = ["derive"] }
clap_complete = "=4.6.11"
color-eyre = "=0.6.5"
etcetera = "=0.11.0"
gix = { version = "=0.90.0", default-features = false, features = ["sha1"] }
inquire = { version = "=0.9.4", features = ["date"] }
reqwest = { version = "=0.12.28", default-features = false, features = ["blocking", "json", "rustls-tls"] }
self_update = "=1.3.2"
serde = { version = "=1.0.229", features = ["derive"] }
serde_json = "=1.0.154"
toml = "=1.1.8"
url = "=2.5.8"

[dev-dependencies]
regex = "=1.13.1"
