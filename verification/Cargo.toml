[package]
name = "xdelta_stream"
version = "0.1.0"
edition = "2021"
publish = false

[dependencies]
futures-io = "0.3"
futures-util = { version = "0.3", default-features = false, features = ["io", "std"] }
log = "0.4"
