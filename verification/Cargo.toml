[package]
name = "macos_watcher"
version = "0.1.0"
edition = "2021"
publish = false

[dependencies]
core-foundation = "*"
objc = "*"
log = "*"
simplelog = "*"
