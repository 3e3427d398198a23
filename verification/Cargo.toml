[package]
name = "hyprland-vibrance"
version = "0.1.0"
edition = "2021"
publish = false

[dependencies]
clap = { version = "4", features = ["derive"] }
env_logger = "*"
log = "0.4"
wayland-client = "*"
wayland-protocols-hyprland = { version = "*", features = ["client"] }
wayland-protocols-wlr = { version = "*", features = ["client"] }
