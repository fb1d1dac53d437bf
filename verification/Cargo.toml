[package]
name = "p2o"
version = "0.1.0"
edition = "2021"
publish = false

[dependencies]
anyhow = "=1.0.104"
clap = { version = "=4.6.7", features = ["derive"] }
log = "=0.4.35"
prost = "=0.13.5"
serde_json = "=1.0.154"

[dev-dependencies]
half = "=2.7.1"
