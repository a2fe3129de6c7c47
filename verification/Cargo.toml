[package]
name = "bookmark_hub"
version = "0.1.0"
edition = "2021"
publish = false

[dependencies]
url = "=2.5.8"
murmur3 = "=0.5.2"
base64-url = "=4.0.1"
sha2 = "=0.10.9"
hex = "=0.4.3"
dom_smoothie = "=0.19.0"
ammonia = "=4.2.4"
lol_html = "=3.0.3"
tokenizers = { version = "=0.23.2", default-features = false, features = ["fancy-regex"] }
cantrip = "=0.5.0"
chrono = "=0.4.45"
uuid = { version = "=1.29.0", features = ["v4", "serde"] }
serde = { version = "=1.0.229", features = ["derive"] }
serde_json = "=1.0.154"
anyhow = "=1.0.104"
tracing = "=0.1.44"
tokio = { version = "=1.54.1", features = ["full"] }
axum = "=0.8.9"
tokio-postgres = { version = "=0.7.18", features = ["with-chrono-0_4", "with-uuid-1"] }
deadpool-postgres = "=0.14.2"
clap = { version = "=4.6.7", features = ["derive", "env"] }
reqwest = { version = "=0.12.28", default-features = false, features = ["json"] }
jsonwebtoken = { version = "=9.3.1", default-features = false }
argon2 = "=0.5.3"
rig-core = { version = "=0.32.0", default-features = false }
tower-http = { version = "=0.6.11", features = ["fs", "cors", "trace"] }
tracing-subscriber = { version = "=0.3.23", default-features = false, features = ["fmt"] }
pgvector = { version = "=0.4.2", features = ["postgres"] }
schemars = "=1.2.3"
postgres-types = { version = "=0.2.14", features = ["derive"] }
