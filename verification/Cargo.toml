[package]
name = "gltf_loader"
version = "0.1.0"
edition = "2021"
publish = false

[dependencies]
anyhow = "=1.0.104"
base64 = "=0.13.1"
bevy = { version = "0.9", default-features = false, features = ["bevy_animation", "bevy_asset", "bevy_core_pipeline", "bevy_pbr", "bevy_render", "bevy_scene"] }
gltf = { version = "=1.4.1", default-features = false, features = ["KHR_lights_punctual", "KHR_materials_unlit", "extras", "names", "utils"] }
percent-encoding = "=2.3.2"
thiserror = "=1.0.69"
