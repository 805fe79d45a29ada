[package]
name = "gitswitch"
version = "0.1.0"
edition = "2021"
publish = false

[dependencies]
keyring = { version = "3", features = ["apple-native", "windows-native", "linux-native"] }
ratatui = "0.29"
clap = { version = "4", features = ["derive"] }
serde = { version = "1", features = ["derive"] }
serde_json = "1"
directories = "*"
which = "*"
