[package]
name = "genjp"
version = "0.1.0"
edition = "2021"
publish = false

[dependencies]
clap = { version = "4", features = ["derive"] }
dialoguer = { version = "0.11", default-features = false }
directories = "5"
serde_json = { version = "1", features = ["preserve_order"] }
