[package]
name = "knn-jni-rs"
version = "0.1.0"
edition = "2021"
publish = false

[dependencies]
jni = "0.21"
libc = "0.2"
once_cell = "1"
thiserror = "1"
