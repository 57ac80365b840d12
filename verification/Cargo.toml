[package]
name = "bandsocks"
version = "0.1.0"
edition = "2021"
publish = false

[dependencies]
serde = { version = "=1.0.229", features = ["derive"] }
directories-next = "=2.0.0"
heapless = "=0.8.0"
generic-array = "=0.14.9"
typenum = "=1.20.1"
twoway = "0.2"
