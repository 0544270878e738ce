[package]
name = "nearest_address"
version = "0.1.0"
edition = "2021"
publish = false

[dependencies]
rstar = "*"
shapefile = "*"
axum = "*"
tokio = { version = "*", features = ["macros", "rt-multi-thread", "net"] }
serde = { version = "*", features = ["derive"] }
tracing = "*"
tracing-subscriber = { version = "*", features = ["json"] }
