[package]
name = "simbank"
version = "0.1.0"
edition = "2021"
publish = false

[dependencies]
rust_decimal = "1"
chrono = "0.4"
rand = "0.8"
serde = { version = "1", features = ["derive"] }
serde_json = "1"
bincode = "1"
bytes = "1"
uuid = { version = "1", features = ["v4"] }
dashmap = "6"
tokio = { version = "1", features = ["full"] }
futures-util = "0.3"
tokio-tungstenite = "0.24"
axum = { version = "0.8", features = ["ws"] }
tower-http = { version = "0.6", features = ["cors"] }
rust-embed = "8"
mime_guess = "2"
async-trait = "0.1"
thiserror = "1"
anyhow = "1"
clap = { version = "4", features = ["derive"] }
tracing = "0.1"
tracing-subscriber = { version = "0.3", features = ["env-filter"] }
sqlx = { version = "0.8", default-features = false, features = ["sqlite", "runtime-tokio", "chrono", "macros", "migrate"] }
parking_lot = "0.12"
num_cpus = "1"
socket2 = { version = "0.5", features = ["all"] }
nix = { version = "0.29", features = ["sched"] }

[dev-dependencies]
rust_decimal_macros = "1"
