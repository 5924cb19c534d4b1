[package]
name = "cucumber"
version = "0.1.0"
edition = "2021"
publish = false

[dependencies]
regex = "1"
itertools = "0.10"

[dev-dependencies]
serde_json = "1"
