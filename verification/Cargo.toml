[package]
name = "avionics"
version = "0.1.0"
edition = "2021"
publish = false

[dependencies]
anyhow = "=1.0.104"
drm = "=0.14.1"
evdev = "=0.13.2"
femtovg = "=0.28.0"
gbm = "=0.18.0"
glutin = "=0.32.3"
glutin-winit = "=0.5.0"
khronos-egl = { version = "=6.0.0", features = ["dynamic"] }
nix = { version = "=0.31.3", features = ["ioctl", "signal"] }
raw-window-handle = "=0.6.2"
tokio = { version = "=1.54.1", features = ["net", "rt-multi-thread", "sync", "time"] }
tracing = "=0.1.44"
tracing-subscriber = { version = "=0.3.23", features = ["env-filter"] }
winit = "=0.30.13"
