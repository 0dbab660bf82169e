[package]
name = "paper_search"
version = "0.1.0"
edition = "2021"
publish = false

[dependencies]
anyhow = "=1.0.104"
arrow-array = "*"
arrow-schema = "*"
async-trait = "=0.1.92"
futures = "=0.3.34"
quick-xml = "=0.37.5"
reqwest = { version = "=0.12.28", features = ["json"] }
rmcp = { version = "=3.7.0", features = ["server", "transport-io", "macros"] }
schemars = "=1.2.3"
scraper = "=0.29.0"
serde = { version = "=1.0.229", features = ["derive"] }
serde_json = "=1.0.154"
strsim = "=0.11.1"
tantivy = "=0.27.0"
thiserror = "=2.0.21"
tokio = { version = "=1.54.1", features = ["full"] }
tracing = "=0.1.44"
tracing-subscriber = { version = "=0.3.23", features = ["env-filter"] }

[dev-dependencies]
tempfile = "=3.27.0"
