[package]
name = "planetkit"
version = "0.1.0"
edition = "2021"
publish = false

[dependencies]
camera_controllers = "=0.36.0"
gfx = "=0.18.3"
gfx_device_gl = "=0.16.2"
nalgebra = "=0.30.1"
piston = "=1.0.0"
piston3d-cam = "=0.8.0"
piston_window = "*"
slog = "=2.8.2"
specs = { version = "=0.20.0", default-features = false }
vecmath = "=1.0.0"
wavefront_obj = "=11.0.0"
