[package]
name = "dungeon_core"
version = "0.1.0"
edition = "2021"
publish = false

[dependencies]
bevy = { version = "0.9", default-features = false, features = ["bevy_asset", "bevy_winit", "bevy_core_pipeline", "bevy_render", "bevy_sprite", "png", "x11", "filesystem_watcher"] }
bevy_ecs_tilemap = "0.9"
bevy-inspector-egui = "0.17"
bevy_rapier2d = "0.20"
rand = "0.8"
