[package]
name = "ucode_tui"
version = "0.1.0"
edition = "2021"
publish = false

[dependencies]
unicode-width = "0.2"
serde = { version = "1", features = ["derive"] }
thiserror = "2"
crossterm = "0.28"
