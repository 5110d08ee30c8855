[package]
name = "wpm"
version = "0.1.0"
edition = "2021"
publish = false

[dependencies]
rand = "=0.10.3"
crossterm = "=0.29.0"
clap = "=4.6.7"
serde = "=1.0.229"
serde_derive = "=1.0.229"
serde_cbor = "=0.11.2"
indexmap = { version = "=2.14.2", features = ["serde"] }
