[package]
name = "bb"
version = "0.1.0"
edition = "2021"
publish = false

[dependencies]
anyhow = "1"
clap = "4"
image = "0.24"
rand = { version = "0.8", features = ["small_rng"] }
thiserror = "1"
