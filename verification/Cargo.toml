[package]
name = "libwayshot"
version = "0.1.0"
edition = "2021"
publish = false

[dependencies]
drm-fourcc = "=2.2.0"
gbm = "=0.18.0"
gl = "=0.14.0"
image = { version = "=0.25.10", default-features = false }
khronos-egl = { version = "=6.0.0", features = ["static", "no-pkg-config"] }
memmap2 = "=0.9.12"
nix = { version = "=0.30.1", features = ["fs", "mman"] }
tracing = "=0.1.44"
wayland-backend = { version = "=0.3.17", features = ["client_system", "dlopen"] }
wayland-client = "=0.31.15"
wayland-protocols = { version = "=0.32.13", features = ["client", "staging", "unstable"] }
wayland-protocols-wlr = { version = "=0.3.12", features = ["client"] }
