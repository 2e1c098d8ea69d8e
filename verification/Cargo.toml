[package]
name = "pesde"
version = "0.5.0"
edition = "2021"
rust-version = "1.95"
publish = false

[dependencies]
anyhow = "=1.0.104"
chrono = { version = "=0.4.45", features = ["serde"] }
clap = { version = "=4.6.7", features = ["derive"] }
colored = "=2.2.0"
flate2 = "=1.1.10"
full_moon = { version = "=1.2.0", features = ["luau"] }
git2 = { version = "=0.19.0", default-features = false }
gix = { version = "=0.66.0", default-features = false, features = ["blocking-network-client"] }
glob = "=0.3.4"
inquire = "=0.7.5"
# gix depends on kstring, and the newer kstring asks for a compiler
# that is newer than rust-version: the older one is named to hold it.
kstring = "=2.0.2"
log = "=0.4.34"
relative-path = { version = "=1.9.3", features = ["serde"] }
reqwest = { version = "=0.12.28", default-features = false, features = ["blocking", "multipart"] }
schemars = "=0.8.22"
semver = { version = "=1.0.28", features = ["serde"] }
serde = { version = "=1.0.229", features = ["derive"] }
serde_json = "=1.0.154"
sha2 = "=0.10.9"
tar = "=0.4.46"
tempfile = "=3.27.0"
thiserror = "=1.0.69"
threadpool = "=1.8.1"
toml = "=0.8.23"
url = { version = "=2.5.8", features = ["serde"] }
