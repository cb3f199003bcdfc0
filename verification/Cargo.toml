[package]
name = "rotating_terminal"
version = "0.1.0"
edition = "2021"
publish = false

[dependencies]
bevy = { version = "=0.18.1", default-features = false, features = ["bevy_window", "bevy_camera", "bevy_light", "bevy_core_pipeline", "bevy_post_process", "bevy_pbr", "bevy_gltf", "bevy_scene", "png"] }
bevy_image_export = { version = "=0.16.1", default-features = false }
ratatui = { version = "=0.30.2", default-features = false }
soft_ratatui = { version = "=0.2.0", default-features = false, features = ["unicodefonts"] }
