[package]
name = "forest"
version = "0.1.0"
edition = "2021"
publish = false

[dependencies]
anyhow = "*"
clap = { version = "*", features = ["derive"] }
console = "*"
dialoguer = "*"
directories = "*"
serde = { version = "*", features = ["derive"] }
thiserror = "*"
toml = "*"
