[package]
name = "ohua_rs"
version = "0.1.0"
edition = "2021"
publish = false

[dependencies]
bit-set = "*"
proc-macro2 = "1"
quote = "1"
syn = { version = "2", features = ["full", "extra-traits"] }
serde = { version = "1", features = ["derive"] }
serde_json = "1"
tempdir = "*"
