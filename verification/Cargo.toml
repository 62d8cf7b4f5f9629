[package]
name = "autofix"
version = "0.1.0"
edition = "2021"
publish = false

[dependencies]
anyhow = "=1.0.104"
clap = { version = "=4.6.7", features = ["derive", "env"] }
crossterm = "=0.27.0"
ratatui = "=0.26.3"
reqwest = { version = "=0.12.28", default-features = false, features = ["json", "rustls-tls"] }
rustyline = "=14.0.0"
serde = { version = "=1.0.229", features = ["derive"] }
serde_json = "=1.0.154"
tokio = { version = "=1.54.1", features = ["macros", "process", "rt-multi-thread", "signal"] }
walkdir = "=2.5.0"
