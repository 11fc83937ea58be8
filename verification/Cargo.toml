[package]
name = "tokenator"
version = "0.1.0"
edition = "2021"
publish = false

[dependencies]
strsim = "=0.11.1"
tokenizers = { version = "=0.21.4", default-features = false, features = ["onig", "esaxx_fast"] }
hf-hub = "=0.3.2"
serde = { version = "=1.0.229", features = ["derive"] }
serde_json = "=1.0.151"
clap = { version = "=4.5.61", default-features = false, features = ["std", "derive", "help"] }
miette = "=7.6.0"
thiserror = "=2.0.21"
log = "=0.4.34"
env_logger = { version = "=0.11.11", default-features = false }
num-format = "=0.4.4"
ureq = "=2.12.1"
