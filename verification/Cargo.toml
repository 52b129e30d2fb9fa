[package]
name = "muon"
version = "0.1.0"
edition = "2021"
publish = false

[dependencies]
psl = "2"
base64 = "0.22"
regex = "1"
dashmap = "6"
serde = { version = "1", features = ["derive"] }
serde_json = "1"
toml = "0.8"
clap = { version = "4", features = ["derive"] }
tokio = { version = "1", features = ["full"] }
rustls = { version = "0.23", default-features = false, features = ["ring", "std"] }
tokio-rustls = { version = "0.26", default-features = false, features = ["ring"] }
owo-colors = "4"
async-trait = "0.1"
libloading = "0.8"
photon = "*"
