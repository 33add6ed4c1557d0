[package]
name = "music_bot"
version = "0.1.0"
edition = "2021"
rust-version = "1.95"
publish = false

[dependencies]
anyhow = "1"
async-stream = "0.3"
camino = "=1.2.6"
clap = { version = "4", features = ["derive", "env"] }
console-subscriber = "0.1"
dashmap = "=5.5.3"
dotenvy = "0.15"
dptree = "0.3"
futures = "0.3"
lru-cache = "=0.1.2"
mimalloc = { version = "0.1", default-features = false }
num_cpus = "1"
once_cell = "1"
pin-project = "1"
pyo3 = { version = "0.19", features = ["auto-initialize"] }
rand = "=0.8.8"
regex = "=1.13.1"
rodio = "0.17"
shell-words = "=1.1.1"
# Needed by teloxide; its later versions ask for a newer compiler.
takecell = "=0.1.1"
teloxide = { version = "=0.12.2", default-features = false, features = ["macros", "ctrlc_handler"] }
thiserror = "1"
tokio = { version = "1", features = ["full"] }
tokio-stream = { version = "0.1", features = ["sync"] }
tokio-util = "0.7"
tracing = "0.1"
tracing-subscriber = { version = "0.3", features = ["json"] }
url = "=2.5.8"
