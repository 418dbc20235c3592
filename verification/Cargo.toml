[package]
name = "meridian"
version = "0.1.0"
edition = "2021"
publish = false

[dependencies]
uuid = { version = "1", features = ["v4"] }
flexbuffers = "2"
tokio = { version = "1", features = ["full"] }
clap = "3"
serde = { version = "1", features = ["derive"] }
