[package]
name = "mc_renderer"
version = "0.1.0"
edition = "2021"
publish = false

[dependencies]
clap = { version = "4", features = ["derive"] }
color-eyre = "0.6"
minecraft-assets = "0.0.6"
serde = { version = "1", features = ["derive"] }
serde_json = "1"
thiserror = "1"
