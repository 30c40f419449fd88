[package]
name = "gtrace_core"
version = "0.1.0"
edition = "2021"
publish = false

[dependencies]
clipper2 = "*"
geo = "*"
serde = { version = "1", features = ["derive"] }
serde_json = "1"
