[package]
name = "redox_fatd"
version = "0.1.0"
edition = "2021"
publish = false

[dependencies]
mbr = "*"
fatfs = "*"
libc = "*"
spin = "*"
