[package]
name = "mcp_git"
version = "0.1.0"
edition = "2021"
publish = false

[dependencies]
anyhow = "=1.0.104"
clap = { version = "=4.6.7", features = ["derive"] }
gix = "=0.70.0"
# Not used directly: gix-attributes (via gix) needs kstring 2, and later 2.0.x
# releases require a newer rustc than 1.95, so this line holds it at 2.0.0.
kstring = "=2.0.0"
rmcp = { version = "=0.6.4", features = ["server", "macros", "transport-io"] }
schemars = "=1.2.3"
serde = { version = "=1.0.229", features = ["derive"] }
serde_json = "=1.0.154"
tokio = { version = "=1.54.1", features = ["macros", "rt-multi-thread", "io-std"] }
tracing = "=0.1.44"
tracing-subscriber = { version = "=0.3.23", features = ["env-filter"] }
