[package]
name = "os"
version = "0.1.0"
edition = "2021"
publish = false

[dependencies]
lazy_static = { version = "1.4.0", features = ["spin_no_std"] }
bitflags = "1.2.1"
