[package]
name = "clips"
version = "0.1.0"
edition = "2021"
publish = false

[dependencies]
gettext-rs = { version = "=0.7.7", features = ["gettext-system"] }
thiserror = "=2.0.21"
