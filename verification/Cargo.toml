[package]
name = "seyuna"
version = "0.1.0"
edition = "2021"
publish = false

[dependencies]
anyhow = "*"
clap = "*"
indexmap = { version = "=2.14.2", features = ["serde"] }
lightningcss = "=1.0.0-alpha.72"
notify = "*"
once_cell = "*"
owo-colors = "*"
schemars = { version = "*", features = ["indexmap2"] }
serde = { version = "*", features = ["derive"] }
serde_json = "*"
spinach = "*"
tokio = { version = "*", features = ["fs", "io-util", "macros", "rt-multi-thread", "sync", "time"] }
