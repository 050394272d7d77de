[package]
name = "plasma_exit"
version = "0.1.0"
edition = "2021"
publish = false

[dependencies]
sp-core = "*"
serde = { version = "*", features = ["derive"] }

[dev-dependencies]
parity-scale-codec = "*"
