[package]
name = "qt_auto_binding"
version = "0.1.0"
edition = "2021"
publish = false

[dependencies]
syn = { version = "=2.0.119", default-features = false, features = ["full", "parsing"] }
cc = "1"
