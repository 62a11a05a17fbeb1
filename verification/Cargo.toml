[package]
name = "renpy_rust_module"
version = "0.1.0"
edition = "2021"
publish = false

[dependencies]
toml = "*"
serde = { version = "1", features = ["derive"] }
clap = { version = "4", features = ["derive"] }
anyhow = "1"
pyo3 = "*"
