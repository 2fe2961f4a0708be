[package]
name = "noda"
version = "0.1.0"
edition = "2021"
publish = false

[dependencies]
git2 = { version = "=0.21.0", default-features = false }
pulldown-cmark = { version = "=0.13.6", default-features = false, features = ["html"] }
ratatui = "=0.29.0"
anstyle = "=1.0.14"
tracing = "=0.1.44"
tracing-subscriber = { version = "=0.3.23", default-features = false, features = ["fmt", "json", "registry", "std", "ansi"] }
axum = { version = "0.8", default-features = false, features = ["tokio", "http1", "matched-path"] }
tokio = { version = "1", default-features = false, features = ["rt", "sync"] }
