[package]
name = "deck"
version = "0.1.0"
edition = "2021"
publish = false

[dependencies]
jotdown = "=0.9.1"
tera = "=1.20.1"
axum = "=0.8.9"
clap = { version = "=4.6.7", features = ["derive"] }
futures-util = "=0.3.34"
log = "=0.4.34"
notify = "=8.2.0"
notify-debouncer-full = "=0.7.0"
serde = { version = "=1.0.229", features = ["derive"] }
tokio = { version = "=1.54.1", features = ["full"] }
tokio-stream = { version = "=0.1.19", features = ["sync"] }
toml = "=1.1.8"
tower-http = { version = "=0.7.1", features = ["fs", "trace"] }
tracing = "=0.1.44"
tracing-subscriber = "=0.3.23"
webbrowser = "=1.2.5"
