[package]
name = "shared"
version = "0.1.0"
edition = "2021"
publish = false

[dependencies]
proc-macro2 = "1"
quote = "1"
tokio = { version = "1", features = ["rt-multi-thread", "macros", "net", "io-util"] }
