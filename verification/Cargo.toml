[package]
name = "watchface_rs"
version = "0.1.0"
edition = "2021"
publish = false

[dependencies]
serde = { version = "1", features = ["derive"] }
serde_json = "1"
tiny-skia = "0.11"
image = { version = "0.24", default-features = false, features = ["png"] }
png = "0.17"

[dev-dependencies]
winnow = "0.6"
