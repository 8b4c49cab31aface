[package]
name = "pipeline"
version = "0.1.0"
edition = "2021"
publish = false

[dependencies]
bstr = "1"
hex = "0.4"
sha2 = "0.10"
serde = { version = "1", features = ["derive"] }
serde_json = "1"
tokio = { version = "1", features = ["rt-multi-thread", "macros", "net", "fs", "process", "sync", "time", "io-util"] }
clap = { version = "4", features = ["derive"] }
toml = "0.9"
sqlx = { version = "0.8", default-features = false, features = ["sqlite", "runtime-tokio"] }
tabled = "*"
log = "0.4"
env_logger = "0.11"
rpassword = "7"
russh = "*"
zeroize = "1"
