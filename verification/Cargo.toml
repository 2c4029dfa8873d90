[package]
name = "waywarm"
version = "0.1.0"
edition = "2021"
publish = false

[dependencies]
anyhow = "1"
chrono = "0.4"
ksni = { version = "0.3", features = ["blocking"] }
libc = "0.2"
ratatui = "0.30"
serde = { version = "1", features = ["derive"] }
serde_json = "1"
signal-hook = "0.3"
sunrise = "*"
tempfile = "3"
toml = "*"
wayland-client = "0.31"
wayland-protocols-wlr = { version = "0.3", features = ["client"] }
gtk4 = "*"
libadwaita = { version = "*", features = ["v1_5"] }
