[package]
name = "colony_sim"
version = "0.1.0"
edition = "2021"
publish = false

[dependencies]
hecs = "0.9"
rand = "0.8"
raylib = "3.7"
log = "0.4"
pretty_env_logger = "0.4"
once_cell = "1"
