[package]
name = "decimal_digits"
version = "0.1.0"
edition = "2021"
publish = false

[dependencies]
tinyvec = { version = "1", features = ["rustc_1_55"] }
