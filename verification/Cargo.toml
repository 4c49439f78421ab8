[package]
name = "ch32v003_ili9341"
version = "0.1.0"
edition = "2021"
publish = false

[dependencies]
panic-halt = "*"
riscv-rt = "*"
semihosting = { version = "*", features = ["stdio"] }
