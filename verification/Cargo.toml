[package]
name = "uuid_tools"
version = "0.1.0"
edition = "2021"
publish = false

[dependencies]
uuid = { version = "1", features = ["v4", "v7"] }
clap = { version = "4", features = ["derive"] }
