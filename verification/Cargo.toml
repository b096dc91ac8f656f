[package]
name = "pack_verify"
version = "0.1.0"
edition = "2021"
publish = false

[dependencies]
git-features = { version = "=0.26.5", features = ["rustsha1", "progress"] }
git-hash = "=0.10.3"
