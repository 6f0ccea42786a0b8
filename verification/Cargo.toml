[package]
name = "bevy_psx"
version = "0.1.0"
edition = "2021"
publish = false

[dependencies]
bevy = { version = "=0.17.2", default-features = false, features = ["std", "bevy_log", "bevy_asset", "bevy_window", "bevy_pbr", "bevy_sprite_render"] }
