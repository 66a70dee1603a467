[package]
name = "ryuichi"
version = "0.1.0"
edition = "2021"
publish = false

[dependencies]
anyhow = "1"
cpal = "0.15"
rtrb = "0.3"
symphonia = "0.5"
hound = "3.5"
image = { version = "0.25", default-features = false, features = ["png"] }
