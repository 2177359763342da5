[package]
name = "glyphsvg"
version = "0.1.0"
edition = "2021"
publish = false

[dependencies]
skrifa = "=0.49.0"
thiserror = "=2.0.21"
clap = { version = "=4.6.7", features = ["derive"] }

[dev-dependencies]
kurbo = "=0.13.1"
