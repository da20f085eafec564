[package]
name = "gh_actions_updater"
version = "0.2.1"
edition = "2021"
publish = false

[dependencies]
ahash = "0.8"
anyhow = "1"
blake3 = "1"
clap = { version = "4", features = ["derive"] }
dirs = "*"
glob = "0.3"
globset = "0.4"
ignore = "0.4"
memchr = "2"
rayon = "1"
saphyr = "*"
semver = "1"
serde = { version = "1", features = ["derive"] }
serde_json = "1"
toml = "*"
ureq = { version = "3", features = ["json"] }
