[package]
name = "csv_rag"
version = "0.1.0"
edition = "2021"
publish = false

[dependencies]
anyhow = "=1.0.104"
calamine = "=0.37.0"
csv = "=1.4.0"
reqwest = { version = "=0.12.28", features = ["json"] }
rig-core = { version = "=0.31.0", features = ["derive"] }
serde = { version = "=1.0.229", features = ["derive"] }
tokio = { version = "=1.54.1", features = ["sync"] }
