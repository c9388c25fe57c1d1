[package]
name = "evtq"
version = "0.1.0"
edition = "2021"
publish = false

[dependencies]
clap = "2"
roxmltree = "*"
serde = { version = "1", features = ["derive"] }
serde_json = "1"
winapi = { version = "0.3", features = ["winevt", "winerror", "errhandlingapi", "minwinbase", "winbase", "timezoneapi", "sddl", "guiddef", "minwindef"] }
