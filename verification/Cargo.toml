[package]
name = "ocean_sim"
version = "0.1.0"
edition = "2021"
publish = false

[dependencies]
env_logger = "0.11"
glam = "*"
log = "0.4"
