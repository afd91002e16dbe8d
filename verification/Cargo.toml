[package]
name = "unet_core"
version = "0.1.0"
edition = "2021"
publish = false

[dependencies]
regex = "1"
minijinja = "2"
serde = { version = "1", features = ["derive"] }
serde_json = "1"
serde_yaml = "0.9"
anyhow = "1"
thiserror = "1"
tokio = { version = "1", features = ["full"] }
tracing = "0.1"
uuid = { version = "1", features = ["v4", "serde"] }
async-trait = "0.1"
futures = "0.3"
csnmp = "*"
