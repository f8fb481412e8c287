[package]
name = "hypixel_stats"
version = "0.1.0"
edition = "2021"
publish = false

[dependencies]
num-format = "*"
num-traits = "*"
serde = { version = "1", features = ["derive"] }
once_cell = "*"
tracing = "*"
skia-safe = "*"
poise = "*"
serenity = "*"
