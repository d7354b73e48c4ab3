[package]
name = "dkg_core"
version = "0.1.0"
edition = "2021"
publish = false

[dependencies]
bincode = "1.3"
thiserror = "1.0"

[dev-dependencies]
rand = "0.8"
