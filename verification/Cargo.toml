[package]
name = "crystal"
version = "0.1.0"
edition = "2021"
publish = false

[dependencies]
regex = "=1.13.1"
rand = "=0.10.3"
serde = { version = "=1.0.229", features = ["derive"] }
toml = "=1.1.7"
quick-xml = { version = "=0.42.0", features = ["serialize"] }
axum = "=0.8.9"
tokio = { version = "=1.53.2", features = ["full"] }
lapin = "=4.12.0"
dotenv = "=0.15.0"
log = "=0.4.34"
reqwest = "=0.13.5"
tokio-stream = "=0.1.19"
