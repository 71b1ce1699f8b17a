[package]
name = "timetable"
version = "0.1.0"
edition = "2021"
publish = false

[dependencies]
clap = { version = "3", features = ["derive"] }
cli-table = "0.4"
home = "0.5"
serde = { version = "1", features = ["derive"] }
serde_json = "1"
