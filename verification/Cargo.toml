[package]
name = "tili"
version = "0.5.0"
edition = "2021"
publish = false

[dependencies]
axuielement = "=0.10.2"
block2 = "=0.6.2"
clap = { version = "=4.6.7", features = ["derive"] }
core-foundation = "=0.10.1"
core-graphics = "=0.25.0"
ctrlc = "=3.5.2"
kdl = "=6.7.1"
libc = "=0.2.191"
notify = "=8.2.1"
objc2 = "=0.6.5"
objc2-app-kit = "=0.3.2"
objc2-foundation = "=0.3.2"
regex = "=1.13.1"
serde = { version = "=1.0.229", features = ["derive"] }
serde_json = "=1.0.154"
tokio = { version = "=1.54.1", features = ["full"] }
tray-icon = { version = "*", default-features = false }
