[package]
name = "hop_scip"
version = "0.1.0"
edition = "2021"
publish = false

[dependencies]
anyhow = "1"
clap = { version = "4", features = ["derive"] }
prost = "0.12"
serde = { version = "1", features = ["derive"] }
serde_json = "1"
