[package]
name = "process_monitor"
version = "0.1.0"
edition = "2021"
publish = false

[dependencies]
serde = { version = "1", features = ["derive"] }
sysinfo = { version = "0.33", default-features = false, features = ["system"] }
tokio = { version = "1", default-features = false, features = ["rt-multi-thread", "time", "sync", "macros"] }
