[package]
name = "mrrper"
version = "0.1.0"
edition = "2021"
publish = false

[dependencies]
regex = "1"
ring = "0.17"
dotenvy = "0.15"
once_cell = "1"
poise = "0.6"
redis = "0.27"
reqwest = { version = "0.11", features = ["json", "cookies"] }
serde = { version = "1", features = ["derive"] }
thiserror = "1"
tokio = { version = "1", features = ["macros", "rt-multi-thread", "time"] }
tracing = "0.1"
