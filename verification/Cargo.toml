[package]
name = "pagepal"
version = "0.1.0"
edition = "2021"
publish = false

[dependencies]
url = "2"
select = "*"
chrono = { version = "0.4", default-features = false, features = ["clock"] }
tokio = { version = "1", default-features = false, features = ["rt", "time", "sync"] }
futures = "0.3"
reqwest = { version = "*", default-features = false }
