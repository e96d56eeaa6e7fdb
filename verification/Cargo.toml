[package]
name = "ask"
version = "0.1.0"
edition = "2021"
publish = false

[dependencies]
serde_json = "*"
serde = { version = "*", features = ["derive"] }
clap = { version = "*", features = ["derive"] }
config = { version = "*", default-features = false, features = ["json"] }
dirs = "*"
reqwest = { version = "*", default-features = false, features = ["blocking"] }
anyhow = "*"
ratatui = "*"
tui-markdown = "*"
