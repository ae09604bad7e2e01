[package]
name = "catalyst_assets"
version = "0.1.0"
edition = "2021"
publish = false

[dependencies]
uuid = { version = "*", features = ["v4"] }
image = "*"
gltf = "*"
tobj = "*"
exr = "*"
glam = "*"
tokio = { version = "*", features = ["rt-multi-thread", "sync", "time"] }
