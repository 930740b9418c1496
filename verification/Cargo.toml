[package]
name = "obsidian_bar"
version = "0.1.0"
edition = "2021"
publish = false

[dependencies]
async-channel = "2"
gdk-pixbuf = "*"
gio = "*"
glib = "*"
gtk4 = "*"
gtk4-layer-shell = "*"
niri-ipc = "*"
pipewire = "*"
serde_json = "1"
tracing = "0.1"
tracing-subscriber = { version = "0.3", features = ["env-filter"] }
