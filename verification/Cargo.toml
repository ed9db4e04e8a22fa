[package]
name = "cursor"
version = "0.1.0"
edition = "2021"
publish = false

[dependencies]
anyhow = "1"
chrono = "0.4"
flate2 = "1"
futures = "0.3"
log = "0.4"
prost = "0.13"
sha2 = "0.10"
unicode-segmentation = "1"
uuid = { version = "1", features = ["v4"] }
