[package]
name = "moy_sekret"
version = "0.1.0"
edition = "2021"
publish = false

[dependencies]
sodiumoxide = "0.2"
data-encoding = "2"
serde = { version = "1", features = ["derive"] }
toml = "*"
dirs = "*"
clap = "4"
console = "*"
dialoguer = "*"
