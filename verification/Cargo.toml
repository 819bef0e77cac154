[package]
name = "foxiefox"
version = "0.1.0"
edition = "2021"
publish = false

[dependencies]
anyhow = "1"
bytemuck = { version = "1", features = ["derive"] }
chrono = "0.4"
futures = "0.3"
glam = { version = "*", features = ["bytemuck"] }
image = { version = "0.25", default-features = false, features = ["png"] }
itoa = "1"
libc = "0.2"
log = "0.4"
raw-window-handle = "0.6"
rayon = "1"
sdl3 = { version = "*", features = ["raw-window-handle"] }
signal-hook = "0.3"
smallvec = { version = "1", features = ["union", "const_generics"] }
taffy = "*"
thiserror = "2"
tokio = { version = "1", features = ["full"] }
tokio-scoped = "*"
wgpu = "*"
