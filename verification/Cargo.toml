[package]
name = "axdriver"
version = "0.1.0"
edition = "2021"
publish = false

[dependencies]
axdriver_base = "*"
virtio-drivers = "*"
simple-ahci = "=0.1.1-preview.1"
log = "*"
