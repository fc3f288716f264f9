[package]
name = "local_socket"
version = "0.1.0"
edition = "2021"
publish = false

[dependencies]
pin-project = "1"
tokio = { version = "1", default-features = false, features = ["net"] }

[dev-dependencies]
tokio = { version = "1", default-features = false, features = ["net", "rt"] }
