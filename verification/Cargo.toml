[package]
name = "bevy_rgb_matrix"
version = "0.1.0"
edition = "2021"
publish = false

[dependencies]
bevy = { version = "0.17", default-features = false, features = ["std", "multi_threaded", "bevy_render", "bevy_core_pipeline", "bevy_pbr", "bevy_sprite_render", "bevy_window"] }
crossbeam-channel = "0.5"
rpi-led-matrix = "0.2"
