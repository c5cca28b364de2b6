[package]
name = "mesh_resource_provider"
version = "0.1.0"
edition = "2021"
publish = false

[dependencies]
bevy_asset = "=0.1.3"
legion = "=0.2.4"
log = "=0.4.34"
notify = "=5.0.0-pre.2"
