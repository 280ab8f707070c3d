[package]
name = "mybox"
version = "0.1.0"
edition = "2021"
publish = false

[dependencies]
anyhow = "=1.0.104"
fuzzy-matcher = "=0.3.7"
tiny-skia = "=0.11.4"
serde_json = "=1.0.154"
toml = "=0.8.2"
log = "=0.4.35"
env_logger = "=0.11.11"
thiserror = "=2.0.21"
crossbeam-channel = "=0.5.17"
parking_lot = "=0.12.5"
pollster = "=0.4.0"
winit = "=0.30.13"
egui = "=0.30.0"
egui-winit = { version = "=0.30.0", default-features = false }
softbuffer = "=0.4.8"
ab_glyph = "=0.2.32"
arboard = "=3.7.0"
global-hotkey = "=0.6.4"
tray-icon = "=0.19.3"
xcap = "=0.2.2"
objc2-core-graphics = "=0.3.2"
objc2-app-kit = "=0.3.2"
