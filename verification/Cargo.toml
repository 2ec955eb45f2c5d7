[package]
name = "exercises"
version = "0.1.0"
edition = "2021"
publish = false

[dependencies]
clap = { version = "2.33", default-features = false }
rand = "0.7"
