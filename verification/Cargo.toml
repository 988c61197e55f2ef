[package]
name = "ysos_core"
version = "0.1.0"
edition = "2021"
publish = false

[dependencies]
crossbeam-queue = "=0.3.14"
x86 = "=0.52.0"
x86_64 = "=0.15.5"
