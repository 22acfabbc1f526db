[package]
name = "cargo-registry"
version = "0.1.0"
edition = "2021"
publish = false

[dependencies]
openssl = "0.10"
rustc-serialize = "0.3"
rand = "0.8"
time = "0.1"
postgres = "0.19"
curl = "0.4"
conduit = "*"
conduit-cookie = "*"
oauth2 = { version = "*", default-features = false }
semver = "*"
env_logger = "*"
