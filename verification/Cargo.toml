[package]
name = "docdex"
version = "0.1.0"
edition = "2021"
publish = false

[dependencies]
anyhow = "*"
diff = "*"
regex = "*"
rustdoc-types = "*"
serde_json = "*"
sublime_fuzzy = "*"
