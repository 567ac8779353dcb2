[package]
name = "arm_to_wasm"
version = "0.1.0"
edition = "2021"
publish = false

[dependencies]
elf = "*"
capstone = "*"
rayon = "*"
clap = { version = "*", features = ["derive"] }
raki = "*"
binaryen = "*"
