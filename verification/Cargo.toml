[package]
name = "denver"
version = "0.1.0"
edition = "2021"
publish = false

[dependencies]
regex = "*"
serde = { version = "*", features = ["derive"] }
serde_yaml = "*"
serde_json = "*"
clap = { version = "*", features = ["derive"] }
clap_complete = "*"
futures = "*"
notify = "*"
shiplift = "*"
tokio = { version = "*", features = ["rt-multi-thread", "macros", "sync"] }
