[package]
name = "camera_fuse"
version = "0.1.0"
edition = "2021"
publish = false

[dependencies]
flume = "=0.12.0"
rstar = "=0.13.0"
yuv = "=0.1.10"
