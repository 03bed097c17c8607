[package]
name = "bt"
version = "0.1.0"
edition = "2021"
publish = false

[dependencies]
anyhow = "1"
braintrust-sdk-rust = "0.1.0-alpha.2"
clap = { version = "4", features = ["derive", "env"] }
crossterm = "0.28"
dialoguer = { version = "0.12", features = ["fuzzy-select"] }
indicatif = "0.18"
open = "5"
ratatui = "0.29"
reqwest = { version = "0.12", default-features = false, features = ["json", "rustls-tls"] }
serde = { version = "1", features = ["derive"] }
serde_json = "1"
tokio = { version = "1", features = ["macros", "rt-multi-thread", "time"] }
unicode-width = "0.2"
urlencoding = "2"
