[package]
name = "voxmagic"
version = "0.1.0"
edition = "2021"
publish = false

[dependencies]
cpal = "*"
directories = "*"
reqwest = { version = "*", default-features = false, features = ["blocking", "json", "multipart"] }
serde = { version = "*", features = ["derive"] }
serde_json = "*"

[dev-dependencies]
hound = "*"
