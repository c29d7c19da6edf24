[package]
name = "box_tree"
version = "0.1.0"
edition = "2021"
publish = false

[dependencies]
crossbeam-channel = "=0.5.17"
ipc-channel = "*"
rayon = "=1.12.0"
rayon_croissant = "=0.2.0"
serde = { version = "1", features = ["derive"] }
servo_arc = "=0.5.0"
stylo = "*"
