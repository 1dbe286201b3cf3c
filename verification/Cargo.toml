[package]
name = "autoremove_quarantine"
version = "0.1.0"
edition = "2021"
publish = false

[dependencies]
anyhow = "1"
crossbeam-channel = "0.5"
directories = "5"
notify = { version = "6", features = ["crossbeam-channel"] }
tracing = "0.1"
tracing-oslog = "*"
tracing-subscriber = "0.3"
tracing-unwrap = "*"
xattr = "1"
