[package]
name = "fed"
version = "0.1.0"
edition = "2021"
publish = false

[dependencies]
im = "15"
smallvec = "1"
serde = { version = "1", features = ["derive"] }
serde_json = "1"
clap = { version = "3", features = ["derive"] }
clipboard = "0.5"
itoa = "0.4"
tap = "1"
gl = "0.14"
glutin = "0.26"
skia-safe = { version = "0.38", features = ["gl"] }
