[package]
name = "php_syntax_analyzer"
version = "0.1.0"
edition = "2021"
publish = false

[dependencies]
anyhow = "=1.0.104"
bumpalo = { version = "=3.20.3", features = ["allocator-api2"] }
clap = { version = "=4.6.7", features = ["derive"] }
cli-table = "=0.5.0"
futures = "=0.3.34"
rayon = "=1.12.0"
reqwest = { version = "=0.12.28", default-features = false, features = ["json", "rustls-tls"] }
serde = { version = "=1.0.229", features = ["derive"] }
tokio = { version = "=1.54.1", features = ["macros", "rt-multi-thread"] }
tracing = "=0.1.44"
tracing-subscriber = { version = "=0.3.23", features = ["env-filter"] }
zip = { version = "=9.1.0", default-features = false, features = ["deflate"] }
