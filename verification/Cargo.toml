[package]
name = "amari_discovery"
version = "0.1.0"
edition = "2021"
publish = false

[dependencies]
sha2 = "=0.10.9"
hex = "=0.4.3"
serde = { version = "=1.0.229", features = ["derive"] }
serde_json = "=1.0.154"
toml = "=0.8.23"
syn = { version = "=2.0.119", features = ["full", "visit", "extra-traits"] }
proc-macro2 = { version = "=1.0.107", features = ["span-locations"] }
quote = "=1.0.47"
walkdir = "=2.5.0"
rustix = { version = "=0.38.44", features = ["fs"] }
