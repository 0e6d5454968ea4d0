[package]
name = "psysonic"
version = "0.1.0"
edition = "2021"
publish = false

[dependencies]
futures-util = "=0.3.34"
global-hotkey = { version = "=0.7.0", default-features = false }
image = { version = "=0.25.10", default-features = false, features = ["jpeg", "png", "webp"] }
jni = "*"
libc = "=0.2.191"
ndk-context = "*"
reqwest = { version = "=0.12.28", default-features = false }
serde = { version = "=1.0.229", features = ["derive"] }
serde_json = "=1.0.154"
tokio = { version = "=1.54.1", features = ["macros", "rt-multi-thread", "sync", "time"] }
webp = "=0.3.1"
