[package]
name = "rs621"
version = "0.1.0"
edition = "2021"
publish = false

[dependencies]
chrono = { version = "0.4", features = ["serde"] }
derivative = "2"
either = "1"
futures = "0.3"
itertools = "0.12"
reqwest = { version = "0.12", default-features = false, features = ["json"] }
serde = { version = "1", features = ["derive"] }
serde_json = "1"
serde_repr = "0.1"
serde_with = "3"
thiserror = "1"
tokio = { version = "1", features = ["sync", "time"] }
url = "2"
urlencoding = "1"
