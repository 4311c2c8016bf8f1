[package]
name = "mini"
version = "0.1.0"
edition = "2021"
publish = false

[dependencies]
anyhow = "=1.0.104"
inkwell = { version = "=0.5.0", features = ["llvm14-0-force-dynamic"] }
which = "=6.0.3"

[dev-dependencies]
regex = "=1.13.1"
