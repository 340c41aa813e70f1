[package]
name = "lose-net-stack"
version = "0.1.0"
edition = "2021"
publish = false

[dependencies]
virtio-drivers = "0.2"
