[package]
name = "clock_roles"
version = "0.1.0"
edition = "2021"
publish = false

[dependencies]
chrono = { version = "0.4", default-features = false, features = ["std"] }
chrono-tz = "*"
diesel = { version = "*", features = ["postgres"] }
serenity = "*"
tokio = { version = "1", features = ["macros", "rt-multi-thread", "sync", "time"] }
