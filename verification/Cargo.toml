[package]
name = "kakara"
version = "0.1.0"
edition = "2021"
publish = false

[dependencies]
anyhow = "1"
bytemuck = { version = "1", features = ["derive"] }
flume = { version = "0.11", default-features = false }
glam = "0.25"
image = { version = "0.24", default-features = false, features = ["png"] }
noise = { version = "0.8", default-features = false }
rand = "0.8"
thiserror = "1"
tokio = { version = "1", features = ["rt-multi-thread", "macros"] }
tracing = "0.1"
tracing-subscriber = { version = "0.3", features = ["env-filter"] }
wgpu = "0.19"
