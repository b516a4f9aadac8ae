[package]
name = "minefield"
version = "0.1.0"
edition = "2021"
publish = false

[dependencies]
rand = "=0.10.3"
rand_chacha = "=0.10.0"
time = "=0.3.55"
bevy = { version = "=0.18.1", default-features = false, features = ["std", "bevy_sprite_render", "bevy_window", "bevy_asset"] }
