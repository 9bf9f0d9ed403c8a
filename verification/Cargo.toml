[package]
name = "saaru"
version = "0.1.0"
edition = "2021"
publish = false

[dependencies]
comrak = "=0.44.0"
minijinja = { version = "=2.24.0", features = ["loader"] }
serde = { version = "=1.0.229", features = ["derive"] }
serde_json = "=1.0.151"
gray_matter = "=0.3.2"
walkdir = "=2.5.0"
notify = "=8.2.0"
crossbeam = "=0.8.5"
log = "=0.4.34"
simple_logger = "=5.2.0"
clap = { version = "=4.6.7", features = ["derive"] }
axum = "=0.8.9"
tokio = { version = "=1.53.2", features = ["rt-multi-thread", "macros", "net"] }
tower = "=0.5.3"
tower-http = { version = "=0.7.1", features = ["fs", "set-header"] }
tower-livereload = "=0.10.3"
