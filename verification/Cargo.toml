[package]
name = "wasm_slim"
version = "0.1.0"
edition = "2021"
publish = false

[dependencies]
anyhow = "1"
cargo_metadata = "*"
clap = { version = "4", features = ["derive"] }
clap_complete = "4"
console = "*"
quote = "1"
rayon = "1"
regex = "1"
serde = { version = "1", features = ["derive"] }
serde_json = "1"
syn = { version = "2", features = ["full", "visit"] }
thiserror = "*"
toml_edit = "*"
