[package]
name = "rustywin"
version = "0.1.0"
edition = "2021"
publish = false

[dependencies]
byteorder = "1"
clap = "2"
dirs = "*"
env_logger = "0.11"
itertools = "*"
libc = "0.2"
log = "0.4"
nix = "0.26"
nom = "4.2"
