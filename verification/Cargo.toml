[package]
name = "live_update"
version = "0.1.0"
edition = "2021"
publish = false

[dependencies]
tokio = { version = "*", features = ["sync", "rt-multi-thread", "macros", "process", "time"] }
notify = "*"
actix-web = "*"
actix-ws = "*"
actix-files = "*"
bytes = "*"
futures-util = "*"
mime_guess = "*"

[dev-dependencies]
rmp-serde = "*"
serde = "*"
