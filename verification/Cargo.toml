[package]
name = "github_activity_mirror"
version = "0.1.0"
edition = "2021"
publish = false

[dependencies]
anyhow = "=1.0.104"
async-trait = "=0.1.92"
chrono = "=0.4.45"
clap = { version = "=4.6.7", features = ["derive"] }
octocrab = "=0.40.0"
reqwest = { version = "=0.12.28", default-features = false, features = ["json", "rustls-tls"] }
serde = { version = "=1.0.229", features = ["derive"] }
serde_json = "=1.0.151"
sha1_smol = "=1.0.1"
tokio = { version = "=1.53.2", features = ["macros", "rt-multi-thread"] }
toml = "=1.1.7"
url = "=2.5.8"
