[package]
name = "polycalculato_rs"
version = "0.1.0"
edition = "2021"
publish = false

[dependencies]
arrayvec = "0.7"
bitflags = "2"
strum = { version = "0.26", features = ["derive"] }
