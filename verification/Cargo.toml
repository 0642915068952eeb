[package]
name = "sayit"
version = "0.1.0"
edition = "2021"
publish = false

[dependencies]
anyhow = "1"
block2 = "*"
clap = { version = "4", features = ["derive"] }
cpal = "*"
dirs = "*"
dispatch2 = "*"
handy-keys = "*"
hound = "3"
libc = "0.2"
objc2 = "*"
objc2-app-kit = "*"
objc2-foundation = "*"
serde = { version = "1", features = ["derive"] }
toml = "*"
transcribe-rs = { version = "*", features = ["onnx"] }
