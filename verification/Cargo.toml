[package]
name = "blue_fire_splitter"
version = "0.1.0"
edition = "2021"
publish = false

[dependencies]
asr = "=0.0.1"
bytemuck = { version = "1", features = ["derive"] }
dlmalloc = { version = "0.2", features = ["global"] }
