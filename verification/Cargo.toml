[package]
name = "accessforge"
version = "0.1.0"
edition = "2021"
publish = false

[dependencies]
anyhow = "1"
chrono = "0.4"
clap = { version = "4", features = ["derive"] }
serde = { version = "1", features = ["derive"] }
serde_json = "1"
serde_yml = "*"
steamlocate = "2"
ureq = { version = "3", features = ["json"] }
versions = "*"
windows-sys = { version = "*", features = ["Win32_System_Console"] }
wxdragon = "*"
zip = "*"
