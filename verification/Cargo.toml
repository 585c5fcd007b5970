[package]
name = "tsv_search"
version = "0.1.0"
edition = "2021"
publish = false

[dependencies]
anyhow = "1"
clap-v3 = "3.0.0-beta.1"
rayon = "1"
serde_json = "1"
textdb = "*"

[dev-dependencies]
tempfile = "3"
