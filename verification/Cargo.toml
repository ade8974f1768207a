[package]
name = "rmvci"
version = "0.1.0"
edition = "2021"
publish = false

[dependencies]
automotive_diag = "*"
des = "0.8"
jni = "0.21"
nusb = "0.2"
serialport = { version = "4", default-features = false }
tracing = "0.1"
