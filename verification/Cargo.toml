[package]
name = "probador"
version = "0.1.0"
edition = "2021"
publish = false

[dependencies]
gpiod = "*"
i2c-linux = "*"
macroquad = "*"
