[package]
name = "anim_bake"
version = "0.1.0"
edition = "2021"
publish = false

[dependencies]
gltf = { version = "*", default-features = false, features = ["utils"] }
base64 = "*"
serde_cbor = "*"
