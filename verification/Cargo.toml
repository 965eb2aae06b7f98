[package]
name = "sovereign"
version = "0.1.0"
edition = "2021"
publish = false

[dependencies]
chrono = { version = "0.4", default-features = false, features = ["std", "clock"] }
core_affinity = "0.8"
serde = { version = "1", features = ["derive"] }
serde_json = "1"
toml = "0.8"
csv = "1"
thiserror = "1"
tracing = "0.1"
tracing-subscriber = { version = "0.3", features = ["env-filter", "json"] }
tokio = { version = "1", features = ["rt-multi-thread", "macros", "time"] }
async-trait = "0.1"
reqwest = { version = "0.12", default-features = false, features = ["json", "rustls-tls", "gzip"] }
clap = { version = "4", features = ["derive"] }
mimalloc = "*"
rand = "0.8"
rand_distr = "0.4"
ndarray = "0.16"
nalgebra = "0.33"
