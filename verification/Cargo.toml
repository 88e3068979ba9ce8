[package]
name = "nsprobe"
version = "0.1.0"
edition = "2021"
publish = false

[dependencies]
domain = { version = "0.10", features = ["resolv"] }
dns-lookup = "2"
futures = "0.3"
tokio = { version = "1", features = ["rt-multi-thread", "macros", "net"] }
