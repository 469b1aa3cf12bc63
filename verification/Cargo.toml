[package]
name = "math_perf"
version = "0.1.0"
edition = "2021"
publish = false

[dependencies]
chrono = { version = "0.4", default-features = false, features = ["std", "now"] }
lerp = "*"
libm = "0.2"
