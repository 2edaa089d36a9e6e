[package]
name = "sourcerenderer"
version = "0.1.0"
edition = "2021"
publish = false

[dependencies]
smallvec = "1"
crc = "1"
md5 = "0.7"
rsa = "0.4"
rand = "0.8"
regex = "1"
crossbeam-channel = "0.5"
rayon = "1"
num_cpus = "1"
