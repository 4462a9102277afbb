[package]
name = "life"
version = "0.1.0"
edition = "2021"
publish = false

[dependencies]
ahash = "=0.7.8"
clap = { version = "=4.6.7", features = ["derive"] }
hashable = "=0.0.0"
rand = "=0.10.3"
thiserror = "=2.0.21"
