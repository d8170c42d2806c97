[package]
name = "cxx-qt-lib"
version = "0.1.0"
edition = "2021"
publish = false

[dependencies]
cxx = "=1.0.205"

[dev-dependencies]
serde_json = "1"
