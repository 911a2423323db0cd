[package]
name = "mesh_thumbnail"
version = "0.1.0"
edition = "2021"
publish = false

[dependencies]
base64 = "=0.22.1"
clap = { version = "=4.6.7", features = ["derive"] }
image = { version = "=0.25.10", default-features = false, features = ["png", "jpeg"] }
stl_io = "=0.11.0"
three-d = { version = "=0.18.2", features = ["headless"] }
three-d-asset = { version = "=0.9.2", features = ["png", "jpeg"] }
threemf = "=0.8.1"
wavefront_obj = "=11.0.0"
zip = { version = "=9.0.5", default-features = false, features = ["deflate"] }

[dev-dependencies]
regex = "=1.13.1"
