[package]
name = "proxy-manager"
version = "0.1.0"
edition = "2021"
publish = false

[dependencies]
anyhow = "1"
bollard = "0.18"
bytes = "1"
clap = { version = "4", features = ["derive"] }
directories = "5"
dirs = "5"
futures-util = "0.3"
serde = { version = "1", features = ["derive"] }
serde_json = "1"
tar = "0.4"
tokio = { version = "1", features = ["rt-multi-thread", "macros", "time"] }
