[package]
name = "oispa_halla_analytics"
version = "0.1.0"
edition = "2021"
publish = false

[dependencies]
twothousand-forty-eight = "*"
array_tool = "*"
serde = { version = "1", features = ["derive"] }
serde_json = "1"
csv = "1"
rayon = "1"
tokio = { version = "1", features = ["full"] }
futures = "0.3"
futures-util = "0.3"
tokio-retry = "*"
dotenv = "*"
sqlx = { version = "*", default-features = false, features = ["sqlite", "runtime-tokio", "migrate"] }
poem = { version = "*", features = ["rustls"] }
poem-openapi = { version = "*", features = ["swagger-ui"] }
tracing-subscriber = "*"
