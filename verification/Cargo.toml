[package]
name = "yarr"
version = "0.1.0"
edition = "2021"
publish = false

[dependencies]
rand = "0.9"
kdl = "6"
miette = "7"
thiserror = "*"
exmex = { version = "*", features = ["value"] }
smallvec = "1"
num_cpus = "1"
image = { version = "0.25", default-features = false, features = ["png", "jpeg"] }
