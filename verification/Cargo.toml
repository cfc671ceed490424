[package]
name = "simple_lib"
version = "0.1.0"
edition = "2021"
publish = false

[dependencies]
tokio = { version = "1", features = ["rt-multi-thread", "macros", "net", "io-util", "sync"] }

[dev-dependencies]
bincode = "1.3"
