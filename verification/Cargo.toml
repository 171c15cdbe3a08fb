[package]
name = "microdot_core"
version = "0.1.0"
edition = "2021"
publish = false

[dependencies]
petgraph = "=0.6.5"
serde = { version = "=1.0.229", features = ["derive"] }
serde_json = "=1.0.154"
anyhow = "=1.0.104"
clap = { version = "=4.6.7", features = ["derive"] }
rustyline = "=19.0.0"
dirs = "=7.0.0"

[dev-dependencies]
regex = "1"
