[package]
name = "soroban_guard"
version = "0.1.0"
edition = "2021"
publish = false

[dependencies]
glob = "0.3"
syn = { version = "2", features = ["full", "visit", "extra-traits"] }
proc-macro2 = { version = "1", features = ["span-locations"] }
quote = "1"
walkdir = "2"
rayon = "1"
clap = { version = "4", features = ["derive"] }
clap_complete = "4"
colored = "2"
notify = "6"
serde = { version = "1", features = ["derive"] }
serde_json = "1"
thiserror = "1"
