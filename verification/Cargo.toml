[package]
name = "octoconda"
version = "0.1.0"
edition = "2021"
publish = false

[dependencies]
anyhow = "=1.0.104"
clap = { version = "=4.6.7", features = ["derive"] }
octocrab = { version = "=0.47.1", default-features = false, features = ["rustls", "rustls-ring", "default-client"] }
rattler_conda_types = { version = "=0.55.0", default-features = false }
rattler_repodata_gateway = { version = "=0.34.0", default-features = false, features = ["gateway"] }
regex = "=1.13.1"
serde = { version = "=1.0.229", features = ["derive"] }
tempfile = "=3.27.0"
tokio = { version = "=1.53.2", features = ["rt-multi-thread", "macros"] }
tokio-stream = "=0.1.19"
toml = "=1.1.6"
url = "=2.5.8"
