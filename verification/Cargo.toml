[package]
name = "raven"
version = "0.1.0"
edition = "2021"
publish = false

[dependencies]
bevy = { version = "=0.17.3", default-features = false, features = ["bevy_ui", "bevy_text", "bevy_sprite", "bevy_audio", "bevy_state", "vorbis", "png", "default_font"] }
serde = { version = "1", features = ["derive"] }
serde_yaml = "0.9"
