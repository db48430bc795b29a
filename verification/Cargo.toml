[package]
name = "rtxlink"
version = "0.1.0"
edition = "2021"
publish = false

[dependencies]
serialport = { version = "4", default-features = false }
thread-control = "0.1.2"
ymodem = "0.1.1"
