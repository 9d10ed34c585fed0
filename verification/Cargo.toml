[package]
name = "rpython"
version = "0.1.0"
edition = "2021"
publish = false

[dependencies]
indexmap = "2"
rustc-hash = "2"
anyhow = "1"
clap = { version = "4", features = ["derive"] }
tempfile = "3"
