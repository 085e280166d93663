[package]
name = "lyre"
version = "0.1.0"
edition = "2021"
publish = false

[dependencies]
unicode-normalization = "=0.1.26"
# Song ids are the FNV-1a hash of a song's path; fnv supplies that hasher.
fnv = "=1.0.7"
serde = { version = "=1.0.229", features = ["derive"] }
serde_json = "=1.0.154"
lofty = "=0.25.5"
rayon = "=1.12.0"
thiserror = "=2.0.21"
toml = "=1.1.8"
crossterm = "=0.29.0"
ratatui = "=0.30.2"
