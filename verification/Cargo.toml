[package]
name = "notify-bot-dut"
version = "0.1.0"
edition = "2021"
publish = false

[dependencies]
scraper = "=0.29.0"
ego-tree = "=0.11.1"
chrono = "=0.4.45"
sha2 = "=0.10.9"
html-escape = "=0.2.15"
directories = "=6.0.0"
dirs = "=7.0.0"
anyhow = "=1.0.104"
serde = { version = "=1.0.229", features = ["derive"] }
serde_json = "=1.0.154"
clap = { version = "=4.6.7", features = ["derive", "env"] }
tokio = { version = "=1.54.1", features = ["rt-multi-thread", "macros", "time", "net"] }
reqwest = { version = "=0.12.28", default-features = false, features = ["rustls-tls"] }
sqlx = { version = "=0.8.6", default-features = false, features = ["sqlite", "runtime-tokio", "chrono"] }
teloxide = { version = "=0.17.0", default-features = false, features = ["rustls", "macros"] }
# Not used directly: holds teloxide's dependency `takecell` at 0.1.1, since
# 0.1.2 needs a newer rustc than the toolchain this crate is built with.
takecell = "=0.1.1"
