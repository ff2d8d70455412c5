[package]
name = "swagweb"
version = "0.1.0"
edition = "2021"
publish = false

[dependencies]
multer = "3"
hyper = { version = "1", features = ["full"] }
http-body-util = "0.1"
futures-util = "0.3"
tokio = { version = "1", features = ["fs", "io-util", "rt", "macros"] }
tempfile = "3"
