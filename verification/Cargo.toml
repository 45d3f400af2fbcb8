[package]
name = "reflection_doc"
version = "0.1.0"
edition = "2021"
publish = false

[dependencies]
p2panda-core = "=0.4.0"
hex = "=0.4.3"
rand = "=0.9.5"
indexmap = "=2.14.2"
chrono = "=0.4.45"
loro = "=1.17.1"
tokio = { version = "=1.54.1", features = ["rt-multi-thread", "macros", "time", "sync"] }
clap = { version = "=4.6.7", features = ["derive"] }
crossterm = "=0.29.0"
ratatui = "=0.30.2"
anyhow = "=1.0.104"
tracing = "=0.1.44"
tracing-subscriber = { version = "=0.3.23", features = ["env-filter"] }
serde = { version = "=1.0.229", features = ["derive"] }
thiserror = "=2.0.21"
