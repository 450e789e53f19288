[package]
name = "pinix"
version = "0.1.0"
edition = "2021"
publish = false

[dependencies]
anyhow = "*"
clap = { version = "*", features = ["derive"] }
console = "*"
futures = "*"
indicatif = "*"
regex = "*"
serde = { version = "*", features = ["derive"] }
serde_json = "*"
tokio = { version = "*", features = ["rt", "process", "io-util", "time", "macros", "fs"] }
toml = "*"
