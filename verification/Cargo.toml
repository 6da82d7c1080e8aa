[package]
name = "hl"
version = "0.1.0"
edition = "2021"
publish = false

[dependencies]
anyhow = "=1.0.104"
clap = "=4.6.7"
config = { version = "0.14", default-features = false, features = ["toml"] }
ethers = { version = "=2.0.14", default-features = false, features = ["abigen"] }
home = "=0.5.12"
lazy_static = "=1.5.1"
reqwest = { version = "=0.11.27", features = ["json"] }
secrecy = { version = "=0.8.0", features = ["serde"] }
serde = { version = "=1.0.229", features = ["derive"] }
serde_json = "=1.0.154"
tokio = { version = "=1.54.1", features = ["macros", "rt-multi-thread", "time"] }
