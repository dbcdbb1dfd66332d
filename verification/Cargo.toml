[package]
name = "clockhand"
version = "0.1.0"
edition = "2021"
publish = false

[dependencies]
anyhow = "1"
chrono = "0.4"
clap = { version = "4", features = ["derive"] }
indoc = "2"
mac-notification-sys = "*"
notify = "6"
notify-rust = "4"
serde = { version = "1", features = ["derive"] }
serde_json = "1"
tabwriter = "1"
tokio = { version = "1", features = ["macros", "rt-multi-thread"] }
