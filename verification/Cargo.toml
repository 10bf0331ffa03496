[package]
name = "penv"
version = "0.1.0"
edition = "2021"
publish = false

[dependencies]
anyhow = "1"
camino = "1"
clap = { version = "4", features = ["derive", "env"] }
directories = "5"
flate2 = "1"
reqwest = { version = "0.12", default-features = false, features = ["rustls-tls", "json"] }
semver = "=1.0.28"
serde = { version = "1", features = ["derive"] }
sha2 = "=0.10.9"
tar = "0.4"
target-lexicon = "=0.12.16"
tempfile = "3"
tera = "1"
tokio = { version = "1", features = ["rt-multi-thread", "macros", "fs", "io-util"] }
toml = "0.8"
url = "2"
