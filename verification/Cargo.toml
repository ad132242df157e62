[package]
name = "hawxide"
version = "0.1.0"
edition = "2021"
publish = false

[dependencies]
rand = "0.8"
clap = { version = "4", features = ["derive"] }
rayon = "1"
serde_json = "1"
image = { version = "0.24", default-features = false, features = ["png", "jpeg"] }
tobj = { version = "4", features = ["use_f64"] }
