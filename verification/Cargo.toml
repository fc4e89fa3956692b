[package]
name = "iced-longbridge"
version = "0.1.0"
edition = "2021"
publish = false

[dependencies]
chrono = { version = "=0.4.45", default-features = false, features = ["std", "clock"] }
iced = { version = "=0.14.0", default-features = false, features = ["thread-pool", "x11", "tiny-skia", "svg", "advanced", "canvas", "markdown"] }
palette = "=0.7.7"
