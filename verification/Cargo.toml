[package]
name = "printer_discovery"
version = "0.1.0"
edition = "2021"
publish = false

[dependencies]
anyhow = "1"
axum = "*"
diesel = { version = "2", default-features = false, features = ["sqlite"] }
dotenvy = "*"
escpos = "*"
glob = "*"
log = "*"
rusb = "*"
serde = { version = "1", features = ["derive"] }
serde_json = "1"
serialport = { version = "4", default-features = false }
tokio = { version = "1", features = ["rt-multi-thread", "macros", "net"] }
udev = "*"
