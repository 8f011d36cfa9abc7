[package]
name = "better_tilbudsavis"
version = "0.1.0"
edition = "2021"
publish = false

[dependencies]
anyhow = "*"
comfy-table = { version = "*", default-features = false }
dirs = "*"
futures = "*"
reqwest = { version = "*", default-features = false, features = ["json", "rustls-tls"] }
serde = { version = "*", features = ["derive"] }
serde_json = "*"
tokio = { version = "*", features = ["rt-multi-thread", "macros"] }
