[package]
name = "svlopp"
version = "0.1.0"
edition = "2021"
publish = false

[dependencies]
bitflags = "2"
libc = "0.2"
rustix = { version = "1", features = ["event", "fs", "process", "stdio", "time"] }
