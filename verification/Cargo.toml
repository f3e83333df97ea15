[package]
name = "fontpm"
version = "0.1.0"
edition = "2021"
publish = false

[dependencies]
sha2 = "*"
reqwest = { version = "*", default-features = false, features = ["json"] }
tokio = { version = "*", features = ["rt-multi-thread", "macros", "fs"] }
serde = { version = "*", features = ["derive"] }
serde_json = "*"
toml = "*"
dirs = "*"
clap = { version = "*", features = ["derive"] }
futures = "*"
termcolor = "*"
path-clean = "*"
