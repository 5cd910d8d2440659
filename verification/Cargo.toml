[package]
name = "heavens"
version = "0.1.0"
edition = "2021"
publish = false

[dependencies]
rand = "0.8"
clap = { version = "4", features = ["derive"] }
nalgebra = "0.33"
serde = { version = "1", features = ["derive"] }
json5 = "0.4"
