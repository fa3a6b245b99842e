[package]
name = "containerd"
version = "0.1.0"
edition = "2021"
publish = false

[dependencies]
data-encoding = "2"
filetime = "0.2"
log = "0.4"
regex = "1"
ring = "0.17"
