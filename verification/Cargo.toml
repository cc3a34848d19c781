[package]
name = "scrobblist"
version = "0.1.0"
edition = "2021"
publish = false

[dependencies]
md5 = "0.7"
url = "2"
chrono = "0.4"
serde = { version = "1", features = ["derive"] }
serde_json = "1"
reqwest = { version = "0.12", default-features = false, features = ["rustls-tls"] }
tokio = { version = "1", features = ["rt-multi-thread", "macros", "net", "io-util", "time", "sync"] }
sqlx = { version = "0.8", default-features = false, features = ["runtime-tokio", "sqlite", "chrono", "derive"] }
keyring = { version = "3", features = ["linux-native"] }
dotenv = "0.15"
thiserror = "1"
