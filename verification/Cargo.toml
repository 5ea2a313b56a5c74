[package]
name = "patchbot"
version = "0.1.0"
edition = "2021"
publish = false

[dependencies]
chrono = "=0.4.45"
dotenvy = "=0.15.7"
image_charts = { version = ">=6.1.0, <6.1.170", default-features = false }
once_cell = "=1.21.4"
poise = "=0.6.2"
rand = "=0.9.5"
reqwest = { version = "=0.12.28", default-features = false, features = ["json", "rustls-tls"] }
serde_json = "=1.0.154"
serenity = "=0.12.5"
tokio = { version = "=1.54.1", features = ["macros", "rt-multi-thread", "sync"] }
