[package]
name = "elide_provider"
version = "0.1.0"
edition = "2021"
publish = false

[dependencies]
async-trait = "*"
base64 = "*"
deepgram = "*"
hipstr = "*"
infer = "*"
reqwest = { version = "*", features = ["json"] }
serde = { version = "*", features = ["derive"] }
serde_json = "*"
thiserror = "*"
