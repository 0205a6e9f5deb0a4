[package]
name = "skin_uniforms"
version = "0.1.0"
edition = "2021"
publish = false

[dependencies]
bevy_asset = "0.15"
bevy_ecs = "0.15"
bevy_math = "0.15"
bevy_render = "0.15"
bevy_transform = "0.15"
bevy_utils = "0.15"
bytemuck = "1"
