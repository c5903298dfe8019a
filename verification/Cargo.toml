[package]
name = "voci"
version = "0.1.0"
edition = "2021"
publish = false

[dependencies]
toml = "*"
caseless = "*"
unicode-normalization = "*"
semver = "*"
serde = { version = "*", features = ["derive"] }
serde_json = "*"
clap = { version = "*", features = ["derive"] }
tokio = { version = "*", features = ["full"] }
rusqlite = { version = "*", features = ["bundled", "functions"] }
reqwest = { version = "*", default-features = false, features = ["json", "rustls-tls"] }
directories = "*"
chrono = "*"
tempfile = "*"
uuid = { version = "*", features = ["v4"] }
crossterm = "*"
ratatui = "*"
arboard = { version = "*", default-features = false }
edtui = { version = "*", default-features = false }
textwrap = "*"
unicode-segmentation = "*"
unicode-width = "*"
futures-util = "*"
anyhow = "*"
thiserror = "*"
flate2 = "*"
sha2 = "*"
tar = "*"
zip = { version = "*", default-features = false, features = ["deflate"] }
