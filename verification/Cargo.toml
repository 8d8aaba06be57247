[package]
name = "aio"
version = "0.1.0"
edition = "2021"
publish = false

[dependencies]
mio = { version = "=1.2.4", features = ["os-poll", "os-ext", "net"] }
nix = { version = "=0.31.3", features = ["fs"] }
