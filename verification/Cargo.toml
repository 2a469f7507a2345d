[package]
name = "zero_to_prod"
version = "0.1.0"
edition = "2021"
publish = false

[dependencies]
axum = "*"
chrono = "*"
config = "*"
hyper = "*"
secrecy = "*"
serde = { version = "*", features = ["derive"] }
serde-aux = "*"
sqlx = { version = "*", default-features = false, features = ["runtime-tokio", "tls-rustls", "postgres", "uuid", "chrono"] }
tokio = { version = "*", features = ["rt-multi-thread", "macros", "net"] }
tower = "*"
tower-http = { version = "*", features = ["request-id", "trace", "util"] }
tracing = "*"
tracing-bunyan-formatter = "*"
tracing-subscriber = { version = "*", features = ["env-filter", "registry", "fmt"] }
uuid = { version = "*", features = ["v4"] }
