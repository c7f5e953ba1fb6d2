[package]
name = "file_architect"
version = "0.1.0"
edition = "2021"
publish = false

[dependencies]
core-foundation = "=0.10.1"
core-foundation-sys = "=0.8.7"
dirs = "=7.0.0"
dotenv = "=0.15.0"
io-kit-sys = "=0.5.0"
machine-uid = "=0.6.0"
serde = { version = "=1.0.229", features = ["derive"] }
zip = { version = "2", default-features = false, features = ["deflate"] }
