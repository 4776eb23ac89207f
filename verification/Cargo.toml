[package]
name = "bumbam"
version = "0.1.0"
edition = "2021"
publish = false

[dependencies]
byteorder = "1"
clap = { version = "2", default-features = false }

[dev-dependencies]
nom = "7"
