[package]
name = "weight_tracker"
version = "0.1.0"
edition = "2021"
publish = false

[dependencies]
chrono = "0.4"
directories = "*"
ratatui = "0.29"
tui-textarea = "0.7"
