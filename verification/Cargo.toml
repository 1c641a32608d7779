[package]
name = "iceblock"
version = "0.1.0"
edition = "2021"
publish = false

[dependencies]
syn = { version = "0.15", features = ["full", "extra-traits"] }
quote = "0.6"
proc-macro2 = "0.4"
