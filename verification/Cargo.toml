[package]
name = "render_core"
version = "0.1.0"
edition = "2021"
publish = false

[dependencies]
anyhow = "1"
cgmath = "0.18"
log = "0.4"
pretty_env_logger = "0.5"
thiserror = "1"
tobj = "3"
vulkanalia = { version = "0.22", features = ["libloading", "provisional", "window"] }
winit = "0.28"
