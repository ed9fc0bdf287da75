[package]
name = "git-crev"
version = "0.1.0"
edition = "2021"
publish = false

[dependencies]
git2 = { version = "*", default-features = false }
serde = { version = "1", features = ["derive"] }
serde_yaml = "*"
structopt = "*"
crev-lib = "*"
crev-data = "*"
crev-common = "*"
atty = "*"
term = "*"
semver = "*"
failure = "*"
env_logger = "*"
