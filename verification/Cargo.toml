[package]
name = "multiwin"
version = "0.1.0"
edition = "2021"
publish = false

[dependencies]
winit = "0.28"
glutin = "0.30"
glutin-winit = "0.3"
raw-window-handle = "0.5"
softbuffer = "0.2"
