[package]
name = "savings_rate"
version = "0.1.0"
edition = "2021"
publish = false

[dependencies]
ansi_term = "0.12"
anyhow = "1"
piechart = "*"
serde = { version = "1", features = ["derive"] }
serde_json = "1"
textplots = "*"
xshell = "0.1"
