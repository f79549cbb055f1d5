[package]
name = "ball_arena"
version = "0.1.0"
edition = "2021"
publish = false

[dependencies]
bevy = { version = "0.5", default-features = false, features = ["render"] }
bevy_rapier3d = "0.11"
