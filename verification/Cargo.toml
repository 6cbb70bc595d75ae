[package]
name = "noseyparker"
version = "0.1.0"
edition = "2021"
publish = false

[dependencies]
anyhow = "=1.0.104"
bstr = "=1.13.1"
console = "=0.15.11"
indicatif = "=0.17.11"
polodb_core = "=4.4.2"
prettytable-rs = { version = "=0.10.0", default-features = false }
regex = "=1.13.1"
rlimit = "=0.10.2"
schemars = "=0.8.22"
serde = { version = "=1.0.229", features = ["derive"] }
serde_json = "=1.0.154"
sha1 = "=0.10.7"
smallvec = "=1.16.4"
tracing = "=0.1.44"
tracing-log = "=0.2.0"
tracing-subscriber = { version = "=0.3.23", features = ["env-filter"] }

[dev-dependencies]
base64 = "=0.22.1"
