[package]
name = "bevy_generative"
version = "0.1.0"
edition = "2021"
publish = false

[dependencies]
colorgrad = "0.6"
gltf = { version = "1.4", default-features = false }
image = { version = "0.24", default-features = false, features = ["png"] }
noise = { version = "0.9", default-features = false, features = ["std"] }
rfd = { version = "0.14", default-features = false, features = ["xdg-portal", "async-std"] }
serde = { version = "1", features = ["derive"] }
