[package]
name = "typst_upgrade"
version = "0.1.0"
edition = "2021"
publish = false

[dependencies]
clap = { version = "4", features = ["derive"] }
diff = "0.1"
once_cell = "1"
reqwest = { version = "0.12", default-features = false, features = ["blocking", "json", "rustls-tls"] }
semver = "1"
serde = { version = "1", features = ["derive"] }
serde_json = "1"
termcolor = "1"
toml = "0.8"
typst-syntax = "*"

[dev-dependencies]
regex = "1"
