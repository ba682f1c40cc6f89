[package]
name = "prek"
version = "0.1.0"
edition = "2021"
publish = false

[dependencies]
shlex = "*"
levenshtein = "*"
semver = "*"
serde_yaml = "*"
hex = "*"
target-lexicon = "*"
fancy-regex = "*"
serde = { version = "*", features = ["derive"] }
serde_json = "*"
toml = "*"
anyhow = "*"
owo-colors = "*"
anstream = "*"
fs-err = "*"
tempfile = "*"
which = "*"
clap = { version = "*", features = ["derive"] }
ignore = "*"
same-file = "*"
thiserror = "*"
