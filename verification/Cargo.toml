[package]
name = "egui_pc98_revival"
version = "0.1.0"
edition = "2021"
publish = false

[dependencies]
egui = "*"
