[package]
name = "rebar"
version = "0.1.0"
edition = "2021"
publish = false

[dependencies]
iced = { version = "0.14", default-features = false, features = ["tiny-skia", "thread-pool"] }
lucide-icons = "*"
image = { version = "0.25", default-features = false, features = ["png", "jpeg", "bmp"] }
sysinfo = "0.30"
raw-window-handle = "0.6"
