[package]
name = "chip8gui"
version = "0.1.0"
edition = "2021"
publish = false

[dependencies]
chip8sys = "*"
minifb = "0.28"
rodio = "0.21"
