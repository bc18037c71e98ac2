[package]
name = "wolog"
version = "0.1.0"
edition = "2021"
publish = false

[dependencies]
chrono = { version = "=0.4.45", default-features = false, features = ["std", "clock", "serde"] }
url = { version = "=2.5.8", features = ["serde"] }
serde = { version = "1", features = ["derive"] }
serde_json = "1"
serde_yml = "*"
pandoc_ast = "*"
walkdir = "2"
tempfile = "3"
tokio = { version = "1", features = ["rt-multi-thread", "macros", "process", "io-util", "sync", "time"] }
rocket = { version = "0.5", features = ["json", "secrets"] }
sqlx = { version = "0.8", default-features = false, features = ["postgres", "runtime-tokio", "chrono", "json", "migrate"] }
tera = { version = "1", default-features = false }
reqwest = { version = "0.12", default-features = false, features = ["rustls-tls"] }
figment = { version = "0.10", features = ["toml", "env"] }
notify = { version = "8", default-features = false }
thiserror = "*"
tracing = "0.1"
