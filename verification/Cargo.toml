[package]
name = "titan_engine"
version = "0.1.0"
edition = "2021"
publish = false

[dependencies]
slotmap = "=1.1.1"
ash = "=0.32.1"
log = "=0.4.34"
pretty_env_logger = "=0.4.0"
jni = "=0.19.0"
winit = "0.25"
egui_winit_platform = "0.11"
ultraviolet = "=0.8.1"
glam = "=0.34.1"
palette = "=0.7.7"
vulkano = "0.23"
