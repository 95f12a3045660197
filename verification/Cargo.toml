[package]
name = "chaos"
version = "0.1.0"
edition = "2021"
publish = false

[dependencies]
anyhow = "=1.0.104"
async-trait = "=0.1.92"
clap = { version = "=3.2.25", features = ["derive"] }
engula-client = "=0.4.0"
rand = { version = "=0.8.8", features = ["small_rng"] }
rand_xoshiro = "0.6"
serde = { version = "=1.0.229", features = ["derive"] }
tokio = { version = "=1.54.1", features = ["full"] }
toml = "=0.5.11"
tracing = "=0.1.44"
tracing-subscriber = "=0.3.23"
