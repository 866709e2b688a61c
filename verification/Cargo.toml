[package]
name = "chip8"
version = "0.1.0"
edition = "2021"
publish = false

[dependencies]
rand = "*"
gtk = "0.18"
gdk = "0.18"
gio = "0.18"
cairo-rs = "0.18"
rodio = "*"
