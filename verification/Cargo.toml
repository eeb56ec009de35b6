[package]
name = "ansi_interpreter"
version = "0.1.0"
edition = "2021"
publish = false

[dependencies]
smallvec = "*"
winapi = "0.2"
kernel32-sys = "0.2"
wio = "0.2"
