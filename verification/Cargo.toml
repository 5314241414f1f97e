[package]
name = "package_registry_manager"
version = "0.1.0"
edition = "2021"
publish = false

[dependencies]
regex = "1.13"
serde = { version = "1", features = ["derive"] }
serde_json = "1"
toml = "0.9"
anyhow = "1"
clap = { version = "4", features = ["derive"] }
tokio = { version = "1", default-features = false, features = ["macros", "rt", "time"] }
