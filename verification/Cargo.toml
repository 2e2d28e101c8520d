[package]
name = "onec_buddy_mcp"
version = "0.1.1"
edition = "2021"
publish = false

[dependencies]
clap = { version = "4", features = ["derive"] }
eventsource-stream = "0.2"
futures-util = "0.3"
httpdate = "1"
icu_normalizer = "2"
icu_properties = "2"
reqwest = { version = "0.13", default-features = false, features = ["rustls", "stream", "gzip", "deflate", "brotli"] }
rmcp = { version = "2.2", features = ["server", "transport-io"] }
secrecy = "0.10"
serde = { version = "1", features = ["derive"] }
serde_json = "1"
thiserror = "2"
tokio = { version = "1", features = ["macros", "rt-multi-thread", "io-std", "io-util", "sync", "time"] }
tokio-util = { version = "0.7", features = ["codec"] }
tracing = "0.1"
tracing-subscriber = { version = "0.3", features = ["env-filter"] }
