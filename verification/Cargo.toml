[package]
name = "inventory_agent"
version = "0.1.0"
edition = "2021"
publish = false

[dependencies]
regex = "1"
chrono = "0.4"
tokio = { version = "1", features = ["rt-multi-thread", "macros", "time"] }
reqwest = { version = "0.12", default-features = false, features = ["json"] }
serde = { version = "1", features = ["derive"] }
hostname = "0.4"
winapi = { version = "0.3", features = ["winuser", "sysinfoapi", "winbase", "winnt"] }
