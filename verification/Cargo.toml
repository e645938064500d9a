[package]
name = "rf-mail"
version = "0.1.0"
edition = "2021"
publish = false

[dependencies]
uuid = { version = "1", features = ["v4"] }
regex = "1"
pulldown-cmark = { version = "*", default-features = false, features = ["html"] }
chrono = { version = "0.4", default-features = false, features = ["clock", "std"] }
base64 = "*"
hex = "0.4"
hmac = "0.12"
sha2 = "0.10"
urlencoding = "2"
serde = { version = "1", features = ["derive"] }
serde_json = "1"
tokio = { version = "1", features = ["rt", "rt-multi-thread", "macros", "fs", "io-util", "sync", "time"] }
async-trait = "0.1"
tracing = "0.1"
once_cell = "1"
thiserror = "*"
lettre = { version = "0.11", default-features = false, features = ["builder", "smtp-transport", "tokio1", "sendmail-transport", "hostname", "tokio1-rustls-tls"] }
reqwest = { version = "0.12", default-features = false, features = ["json", "multipart", "rustls-tls"] }
