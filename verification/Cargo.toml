[package]
name = "always_goofy_things"
version = "0.1.0"
edition = "2021"
publish = false

[dependencies]
anyhow = "1"
base64 = "0.22"
chrono = { version = "0.4", default-features = false, features = ["clock", "serde"] }
clap = { version = "4", default-features = false, features = ["std", "help", "usage", "error-context", "derive", "env"] }
directories = "*"
futures-util = "0.3"
pdf_oxide = { version = "*", default-features = false }
regex = "1"
reqwest = { version = "0.12", default-features = false, features = ["json", "stream", "rustls-tls"] }
rusqlite = { version = "*", features = ["bundled"] }
rustyline = { version = "*", default-features = false }
serde = { version = "1", features = ["derive"] }
serde_json = "1"
sha2 = "0.10"
tokio = { version = "1", features = ["rt-multi-thread", "macros", "time", "signal"] }
unicode-normalization = "0.1"
uuid = { version = "1", features = ["v4"] }
