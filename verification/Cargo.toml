[package]
name = "gptboot"
version = "0.1.0"
edition = "2021"
publish = false

[dependencies]
crc = "*"
uuid = { version = "*", features = ["v4"] }
fatfs = "*"
clap = "*"
widestring = "*"
uefi = "*"
