[package]
name = "scoreboard_panel"
version = "0.1.0"
edition = "2021"
publish = false

[dependencies]
egui = "=0.27.2"
egui_commonmark = "=0.14.0"
egui_extras = "=0.27.2"
gloo-net = "=0.5.0"
js-sys = "=0.3.106"
log = "=0.4.34"
poll-promise = { version = "=0.3.0", features = ["web"] }
scoreboard_db = "=0.2.1"
serde = { version = "=1.0.229", features = ["derive"] }
serde_json = "=1.0.154"
web-sys = { version = "=0.3.106", features = ["FormData", "Blob", "RequestCredentials"] }
