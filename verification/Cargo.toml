[package]
name = "ptpsim"
version = "0.1.0"
edition = "2021"
publish = false

[dependencies]
axum = "0.8"
clap = { version = "4", features = ["derive"] }
regex = "1"
serde = { version = "1", features = ["derive"] }
serde_yaml_bw = "*"
tokio = { version = "1", features = ["full"] }
toml = "*"
