[package]
name = "advnotify"
version = "0.1.0"
edition = "2021"
publish = false

[dependencies]
anyhow = "*"
lettre = { version = "*", default-features = false, features = ["smtp-transport", "builder"] }
reqwest = { version = "*", default-features = false }
serde = { version = "*", features = ["derive"] }
serde_json = "*"
time = { version = "*", features = ["formatting"] }
tokio = { version = "*", features = ["macros", "rt-multi-thread", "time"] }
