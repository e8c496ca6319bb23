[package]
name = "textty"
version = "0.1.0"
edition = "2021"
publish = false

[dependencies]
chrono = "*"
clap = { version = "*", features = ["derive"] }
color-eyre = "*"
ratatui = "*"
scraper = "*"
serde = { version = "*", features = ["derive"] }
serde-aux = "*"
thiserror = "*"
ureq = { version = "*", features = ["json"] }
