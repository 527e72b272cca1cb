[package]
name = "four_wins"
version = "0.1.0"
edition = "2021"
publish = false

[dependencies]
bevy = { version = "=0.5.0", default-features = false, features = ["render", "bevy_winit", "bevy_wgpu", "png", "x11"] }
bevy_prototype_debug_lines = "=0.3.4"
# bevy 0.5 builds with the tracing-attributes of its time
tracing-attributes = "=0.1.16"
