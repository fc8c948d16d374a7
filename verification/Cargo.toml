[package]
name = "glyphgen"
version = "0.1.0"
edition = "2021"
publish = false

[dependencies]
image = "*"
unicode-segmentation = "*"
unicode-width = "*"
crossbeam-channel = "*"
serde = { version = "*", features = ["derive"] }
toml = "*"
directories = "*"
