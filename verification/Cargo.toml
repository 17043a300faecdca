[package]
name = "tuillama"
version = "0.1.0"
edition = "2021"
publish = false

[dependencies]
pulldown-cmark = { version = "=0.10.3", default-features = false }
unicode-segmentation = "=1.13.3"
unicode-width = "=0.1.14"
regex = "=1.13.1"
serde = { version = "=1.0.229", features = ["derive"] }
serde_json = "=1.0.154"
chrono = "=0.4.45"
rand = "=0.8.8"
directories = "=5.0.1"
syntect = { version = "=5.3.0", default-features = false, features = ["default-fancy"] }
toml = "=0.8.23"
ratatui = "=0.26.3"
crossterm = "=0.27.0"
tokio = { version = "=1.54.1", features = ["full"] }
reqwest = { version = "=0.12.28", default-features = false, features = ["json", "stream", "rustls-tls"] }
futures-util = "=0.3.34"
async-trait = "=0.1.92"
anyhow = "=1.0.104"
glob = "=0.3.4"
sha2 = "0.10"
