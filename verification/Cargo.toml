[package]
name = "littled"
version = "0.1.0"
edition = "2021"
publish = false

[dependencies]
clap = { version = "=4.6.7", features = ["derive"] }
serde = { version = "=1.0.229", features = ["derive"] }
serde_json = "=1.0.151"
tokio = { version = "=1.53.2", features = ["full"] }
tonic = "=0.14.6"
warp = { version = "=0.4.3", features = ["server"] }
prost = "=0.14.4"
