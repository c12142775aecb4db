[package]
name = "axgit"
version = "0.1.0"
edition = "2021"
publish = false

[dependencies]
anyhow = "*"
axum = "*"
clap = { version = "*", features = ["derive", "env"] }
flate2 = "*"
git2 = { version = "*", default-features = false }
jiff = "*"
mime_guess = "*"
moka = { version = "*", features = ["future"] }
percent-encoding = "*"
serde = { version = "*", features = ["derive"] }
serde_json = "*"
sha2 = "*"
thiserror = "*"
tokio = { version = "*", features = ["full"] }
tokio-util = { version = "*", features = ["io"] }
toml = "*"
tower-http = { version = "*", features = ["fs", "trace"] }
tracing = "*"
tracing-subscriber = { version = "*", features = ["env-filter", "json"] }
