[package]
name = "tensor_compress"
version = "0.1.0"
edition = "2021"
publish = false

[dependencies]
quick-xml = "0.37"
faer = "*"
rayon = "*"
hdf5-pure = "*"
minifb = "*"
