[package]
name = "battery_dashboard"
version = "0.1.0"
edition = "2021"
publish = false

[dependencies]
serde = { version = "1", features = ["derive"] }
time = { version = "0.3", features = ["formatting", "parsing"] }
rusqlite = { version = "0.32", features = ["bundled"] }
zbus = "5"
chrono = "0.4"
chrono-tz = "0.10"
