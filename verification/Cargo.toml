[package]
name = "crate_health"
version = "0.1.0"
edition = "2021"
publish = false

[dependencies]
anyhow = "1"
glob = "0.3"
semver = "1"
spdx = "*"
reqwest = { version = "*", default-features = false, features = ["blocking"] }
