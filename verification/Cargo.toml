[package]
name = "frost_core"
version = "0.1.0"
edition = "2021"
publish = false

[dependencies]
apache-avro = "*"
chrono = "0.4"
serde = { version = "1", features = ["derive"] }
serde_json = "1"
toml = "*"
thiserror = "*"
clap = { version = "4", features = ["derive"] }
colored = "*"
comfy-table = "*"
tokio = { version = "1", features = ["full"] }
reqwest = { version = "*", default-features = false, features = ["json"] }
rusqlite = { version = "*", features = ["bundled"] }
rmcp = { version = "*", features = ["server", "macros", "transport-io"] }
schemars = "1"
glob = "*"
tempfile = "*"
tracing = "*"
tracing-subscriber = { version = "*", features = ["env-filter"] }
aws-config = { version = "1", features = ["behavior-version-latest"] }
aws-sdk-glue = "1"
aws-sdk-s3 = "1"
