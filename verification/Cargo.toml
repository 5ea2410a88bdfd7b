[package]
name = "script_validation"
version = "0.1.0"
edition = "2021"
publish = false

[dependencies]
hex = "0.4"
itertools = "*"
pallas-addresses = "*"
pallas-codec = "*"
pallas-primitives = "*"
serde_json = "1"
clap = { version = "4", features = ["derive"] }
miette = "*"
