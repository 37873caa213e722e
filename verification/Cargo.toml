[package]
name = "grid_ecs"
version = "0.1.0"
edition = "2021"
publish = false

[dependencies]
bevy_color = "*"
bevy_math = "*"
