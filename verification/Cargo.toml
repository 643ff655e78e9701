[package]
name = "astroblasto"
version = "0.1.0"
edition = "2021"
publish = false

[dependencies]
rand = "=0.10.3"
tetra = "*"
