[package]
name = "homography"
version = "0.1.0"
edition = "2021"
publish = false

[dependencies]
nalgebra = "=0.32.6"
cv-core = "=0.15.0"
sample-consensus = "=1.0.2"
arrsac = "=0.10.0"
rand = "=0.8.8"
rand_pcg = "=0.3.1"
