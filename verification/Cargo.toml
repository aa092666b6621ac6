[package]
name = "ecd"
version = "0.1.0"
edition = "2021"
publish = false

[dependencies]
encoding_rs = "0.8"
charset-normalizer-rs = "1"
clap = { version = "4", features = ["derive"] }
clap_complete = "4"
anyhow = "1"
globset = "0.4"
ignore = "0.4"
rayon = "1"

[dev-dependencies]
encoding = "0.2"
