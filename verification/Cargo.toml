[package]
name = "bell"
version = "0.1.0"
edition = "2021"
publish = false

[dependencies]
serde = { version = "1", features = ["derive"] }
toml = "0.8"
libc = "0.2"
png = "0.18"
cosmic-text = "*"
dbus = "0.9"
dbus-crossroads = "0.5"
wayland-client = "0.31"
wayland-protocols = { version = "0.32", features = ["client", "staging"] }
wayland-protocols-wlr = { version = "0.3", features = ["client"] }
