[package]
name = "tracing_android"
version = "0.1.0"
edition = "2021"
publish = false

[dependencies]
lazy_static = "1"
ndk-sys = { version = "*", features = ["test"] }
sharded-slab = "0.1"
smallvec = "1"
tracing-core = "0.1"
tracing-subscriber = { version = "0.3", default-features = false, features = ["fmt", "std"] }
