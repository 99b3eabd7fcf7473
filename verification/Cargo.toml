[package]
name = "scene_stack"
version = "0.1.0"
edition = "2021"
publish = false

[dependencies]
color-eyre = "*"
crossterm = { version = "*", features = ["event-stream"] }
futures = "*"
ratatui = "*"
tokio = { version = "*", features = ["rt-multi-thread", "macros", "time", "sync"] }
