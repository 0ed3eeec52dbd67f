[package]
name = "hotshot_core"
version = "0.1.0"
edition = "2021"
publish = false

[dependencies]
async-trait = "=0.1.92"
serde = { version = "=1.0.229", features = ["derive"] }
snafu = "=0.7.5"
tokio = { version = "=1.54.1", default-features = false, features = ["rt", "time"] }
