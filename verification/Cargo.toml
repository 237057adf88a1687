[package]
name = "daedalus"
version = "0.1.0"
edition = "2021"
publish = false

[dependencies]
bevy = { version = "=0.10.1", default-features = false, features = ["bevy_asset", "bevy_core_pipeline", "bevy_render", "bevy_sprite", "bevy_text", "bevy_ui", "png"] }
bevy_ecs_ldtk = "=0.7.0"
bevy-inspector-egui = "0.18"
