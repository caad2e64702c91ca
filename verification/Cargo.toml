[package]
name = "atune"
version = "0.1.0"
edition = "2021"
publish = false

[dependencies]
anyhow = "1"
clap = { version = "4", features = ["derive", "env"] }
crossbeam = "0.8"
duration-str = "*"
notify = "6"
serde = { version = "1", features = ["derive"] }
serde_yaml = "0.9"
shell-words = "1"
signal-hook = "0.3"
tracing = "0.1"
tracing-subscriber = { version = "0.3", features = ["env-filter"] }
xshell = "0.2"
