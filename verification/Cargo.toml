[package]
name = "xeniria"
version = "0.1.0"
edition = "2021"
publish = false

[dependencies]
pulldown-cmark = { version = "=0.13.4", default-features = false, features = ["html"] }
clap = { version = "=4.6.7", features = ["derive"] }
