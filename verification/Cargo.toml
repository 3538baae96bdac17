[package]
name = "workflows"
version = "0.1.0"
edition = "2021"
publish = false

[dependencies]
anyhow = "*"
atom_syndication = "*"
chrono = "*"
rss = "*"
flate2 = "*"
tar = "*"
serde = { version = "*", features = ["derive"] }
serde_json = "*"
serde_yaml = "*"
reqwest = { version = "*", default-features = false, features = ["blocking", "json"] }
