[package]
name = "shah_visual"
version = "0.1.0"
edition = "2021"
publish = false

[dependencies]
shah = "=1.14.3"
# shah 1.14.3 does not build with a later shah-macros
shah-macros = "=1.5.0"
serde = { version = "=1.0.229", features = ["derive"] }
toml = "=1.1.8"
log = "=0.4.34"
pretty_env_logger = "=0.5.0"
egui = { version = "=0.31.1", features = ["persistence"] }
eframe = { version = "=0.31.1", default-features = false, features = ["glow", "persistence"] }
# X11 for eframe's window and GL context, switched on where eframe's own
# feature would also bring in the sources of its second renderer
egui-winit = { version = "=0.31.1", default-features = false, features = ["x11"] }
glutin = { version = "=0.32.3", default-features = false, features = ["x11", "glx"] }
glutin-winit = { version = "=0.5.0", default-features = false, features = ["x11", "glx"] }
egui_extras = "=0.31.1"
egui_tiles = "=0.12.0"
egui-file-dialog = { version = "=0.9.0", default-features = false }
