[package]
name = "map_chunk"
version = "0.1.0"
edition = "2021"
publish = false

[dependencies]
byte = "=0.2.7"
anyhow = "=1.0.104"
pico-args = "=0.5.0"
bevy = { version = "=0.8.1", default-features = false, features = ["bevy_render"] }
vulkano = "=0.18.0"
vk-sys = "=0.5.2"
