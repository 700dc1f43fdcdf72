[package]
name = "genimage"
version = "0.1.0"
edition = "2021"
publish = false

[dependencies]
bytemuck = "*"

[dev-dependencies]
ahash = "0.7"
