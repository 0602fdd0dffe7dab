[package]
name = "roguelike"
version = "0.1.0"
edition = "2021"
publish = false

[dependencies]
bevy = { version = "=0.17.3", default-features = false, features = ["bevy_state"] }
bevy_ratatui = "=0.10.0"
ratatui = { version = "0.29", features = ["crossterm"] }
