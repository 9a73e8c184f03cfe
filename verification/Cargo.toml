[package]
name = "mihub_lib"
version = "0.1.0"
edition = "2021"
publish = false

[dependencies]
serde = { version = "1", features = ["derive"] }
serde_json = "1"
pyo3 = "0.23"
reqwest = "0.12"
ripunzip = "2"
tokio = { version = "1", features = ["process", "io-util", "rt", "macros"] }
