[package]
name = "fumen_render"
version = "0.1.0"
edition = "2021"
publish = false

[dependencies]
gif = "0.11"
regex = "1"
fumen = "0.1"
serenity = "0.10"
tokio = { version = "1", features = ["full"] }
reqwest = "0.11"
chrono = "0.4"
once_cell = "1"
lazy_static = "1"
serde = { version = "1", features = ["derive"] }
serde_json = "1"
