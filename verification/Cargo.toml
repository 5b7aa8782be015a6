[package]
name = "watchmux"
version = "0.1.0"
edition = "2021"
publish = false

[dependencies]
ansi_term = "0.12"
clap = { version = "4", features = ["derive"] }
futures = "0.3"
serde = { version = "1", features = ["derive"] }
serde_yaml = "0.9"
thiserror = "1"
tokio = { version = "1", features = ["rt-multi-thread", "macros", "process", "io-util", "io-std", "fs", "sync"] }
