[package]
name = "aes_ctr"
version = "0.1.0"
edition = "2021"

[dependencies]
rayon = "1"
cust = "0.3"
cuda_std = "0.2"
