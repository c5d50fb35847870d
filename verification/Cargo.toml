[package]
name = "amm_invariants"
version = "0.1.0"
edition = "2021"
publish = false

[dependencies]
primitive-types = "*"
num-bigint = "*"
num-traits = "*"
eframe = { version = "*", default-features = false, features = ["glow", "x11", "default_fonts"] }
egui_plot = "*"
