[package]
name = "the_claw"
version = "0.1.0"
edition = "2021"
publish = false

[dependencies]
bevy = { version = "=0.16.1", default-features = false, features = ["std", "async_executor", "multi_threaded", "bevy_asset", "bevy_color", "bevy_core_pipeline", "bevy_gltf", "bevy_pbr", "bevy_render", "bevy_scene", "bevy_state", "bevy_text", "bevy_ui", "bevy_window", "png", "tonemapping_luts"] }
bevy_common_assets = { version = "=0.13.0", features = ["json"] }
rand = "=0.8.8"
serde = { version = "1", features = ["derive"] }
