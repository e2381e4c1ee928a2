[package]
name = "hypr-commons"
version = "0.1.0"
edition = "2021"
publish = false

[dependencies]
libc = "=0.2.191"
zbus = "=5.19.0"
tracing-core = "=0.1.36"
tracing-subscriber = "=0.3.23"
slint = { version = "=1.17.1", default-features = false, features = ["compat-1-2", "std"] }
