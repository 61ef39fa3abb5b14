[package]
name = "bevm"
version = "0.1.0"
edition = "2021"
publish = false

[dependencies]
gl = "=0.14.0"
imgui = "=0.11.0"
imgui-opengl-renderer = "=0.12.1"
imgui-sdl2 = "=0.15.3"
rfd = { version = "=0.17.2", default-features = false, features = ["xdg-portal"] }
sdl2 = "=0.36.0"
