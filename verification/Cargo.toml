[package]
name = "auto_doc"
version = "0.1.0"
edition = "2021"
publish = false

[dependencies]
anyhow = "1"
async-trait = "0.1"
clap = { version = "4", features = ["derive"] }
config = "*"
glob = "0.3"
schemars = "*"
serde = { version = "1", features = ["derive"] }
serde_json = "1"
serde_yaml = "*"
thiserror = "*"
tokio = { version = "1", features = ["macros", "rt-multi-thread", "time", "fs"] }
toml = "*"
