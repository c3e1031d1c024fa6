[package]
name = "sigindex"
version = "0.1.0"
edition = "2021"
publish = false

[dependencies]
serde_json = "=1.0.151"
serde = { version = "*", features = ["derive"] }
anyhow = "*"
dotenvy = "*"
log = "*"
simple_logger = "*"
reqwest = { version = "=0.13.5", default-features = false, features = ["json"] }
sqlx = { version = "=0.9.0", default-features = false, features = ["runtime-tokio", "postgres"] }
tokio = { version = "=1.53.2", features = ["rt-multi-thread", "macros", "signal", "time", "fs"] }
tokio-util = "*"
warp = { version = "=0.4.3", default-features = false, features = ["server"] }
