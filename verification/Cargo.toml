[package]
name = "nebulous"
version = "0.1.0"
edition = "2021"
publish = false

[dependencies]
anyhow = "1"
aws-config = "*"
aws-sdk-dynamodb = "*"
clap = { version = "4", features = ["derive"] }
crossterm = "0.25"
tokio = { version = "1", features = ["full"] }
tui = "0.19"
