[package]
name = "xsteps"
version = "0.1.0"
edition = "2021"
publish = false

[dependencies]
base64 = "0.21"
image = { version = "0.24", default-features = false, features = ["png"] }
parking_lot = "0.12"
rdev = "0.5"
screenshots = "0.5"
tokio = { version = "1", features = ["rt-multi-thread", "macros", "sync"] }
tracing = "0.1"
tracing-subscriber = "0.3"
