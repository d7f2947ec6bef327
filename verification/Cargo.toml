[package]
name = "novluno"
version = "0.1.0"
edition = "2021"
publish = false

[dependencies]
bevy = { version = "=0.17.3", default-features = false, features = ["bevy_asset", "bevy_render", "bevy_core_pipeline", "bevy_sprite", "bevy_winit", "bevy_window", "bevy_gizmos", "bevy_log", "x11"] }
bevy_egui = { version = "=0.37.1", default-features = false, features = ["render", "default_fonts"] }
