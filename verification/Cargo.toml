[package]
name = "merlon"
version = "0.1.0"
edition = "2021"
publish = false

[dependencies]
anyhow = "1"
clap = { version = "4", features = ["derive"] }
heck = "0.4"
serde = { version = "1", features = ["derive"] }
sha1 = "0.10"
toml = "*"
