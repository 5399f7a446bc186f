[package]
name = "agwaita"
version = "0.1.0"
edition = "2021"
publish = false

[dependencies]
chrono = "0.4"
calcard = "*"
rrule = "*"
serde = { version = "1", features = ["derive"] }
serde_json = "1"
zbus = "5"
zvariant = "5"
tokio = { version = "1", features = ["full"] }
tokio-stream = "*"
futures = "0.3"
log = "0.4"
pretty_env_logger = "*"
clap = { version = "4", features = ["derive"] }
niri-ipc = "*"
inotify = "*"
udev = "*"
gtk4 = "*"
libpulse-binding = "2"
bluer = { version = "*", features = ["bluetoothd"] }
