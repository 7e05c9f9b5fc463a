[package]
name = "meow_coverage"
version = "0.1.0"
edition = "2021"
publish = false

[dependencies]
lcov = "=0.8.2"
patch = "=0.7.0"
sha2 = "=0.11.0"
hex = "=0.4.3"
time = "=0.3.55"
clap = { version = "=4.6.7", features = ["derive"] }
octocrab = "=0.41.2"
serde = { version = "=1.0.229", features = ["derive"] }
serde_json = "=1.0.151"
thiserror = "=2.0.21"
tokio = { version = "=1.53.2", features = ["macros", "rt-multi-thread"] }
hyper = "=1.12.0"
owo-colors = "=4.4.0"
