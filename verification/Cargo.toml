[package]
name = "dz-publisher-runtime"
version = "0.1.0"
edition = "2021"
publish = false

[dependencies]
serde = { version = "1", features = ["derive"] }
tokio = { version = "1", features = ["macros", "rt", "signal", "time"] }
toml = "0.8"
