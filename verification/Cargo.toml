[package]
name = "sutera_lib"
version = "0.1.0"
edition = "2021"
publish = false

[dependencies]
ring-compat = "*"
serde = { version = "*", features = ["derive"] }

[dev-dependencies]
serde_json = "*"
