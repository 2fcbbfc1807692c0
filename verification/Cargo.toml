[package]
name = "bluedroid"
version = "0.3.0"
edition = "2021"
publish = false

[dependencies]
embedded-svc = "0.22"
esp-idf-svc = "0.42"
esp-idf-sys = "0.31"
lazy_static = "1.4"
log = "0.4"
