[package]
name = "boat"
version = "0.1.0"
edition = "2021"
publish = false

[dependencies]
base64 = "0.22"
bevy_mikktspace = "0.16"
gltf = { version = "1.4", default-features = false, features = ["utils"] }
libm = "0.2"
