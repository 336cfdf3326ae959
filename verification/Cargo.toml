[package]
name = "voxel_ray_traversal"
version = "0.1.0"
edition = "2021"
publish = false

[dependencies]
egui_winit_vulkano = "*"
nalgebra = "*"
shaderc = "*"
vulkano = "0.35"
winit = "0.30"
winit_input_helper = "*"
