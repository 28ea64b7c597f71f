[package]
name = "beacon"
version = "0.1.0"
edition = "2021"
publish = false

[dependencies]
nucleo = "0.5.0"
nucleo-matcher = "0.3.1"
rust-ini = "0.21.3"
serde_json = "1"
dirs = "6"
rayon = "1"
memory-stats = "1"
pretty-bytes = "0.2.2"
eframe = { version = "0.36.2", default-features = false, features = ["glow", "x11", "default_fonts"] }
egui = { version = "0.36.2", default-features = false }
