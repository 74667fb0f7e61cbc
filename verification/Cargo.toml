[package]
name = "bowtie"
version = "0.1.0"
edition = "2021"
publish = false

[dependencies]
futures = "=0.3.34"
gl = "=0.14.0"
glfw = { version = "=0.45.0", default-features = false }
png = "=0.16.8"
rand = "=0.8.8"
