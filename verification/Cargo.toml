[package]
name = "canonical_codec"
version = "0.1.0"
edition = "2021"
publish = false

[dependencies]
rmp-serde = "*"
rmpv = "*"
serde = { version = "*", features = ["derive"] }
serde_json = "*"
serde-transcode = "*"
