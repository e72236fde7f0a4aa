[package]
name = "rusty-psn"
version = "0.1.0"
edition = "2021"
publish = false

[dependencies]
bytesize = "=1.3.3"
copypasta = "=0.8.2"
eframe = { version = "=0.19.0", features = ["persistence"] }
egui-notify = "=0.4.4"
log = "=0.4.35"
notify-rust = "=4.18.2"
poll-promise = { version = "=0.2.1", features = ["tokio"] }
rfd = { version = "=0.17.2", default-features = false, features = ["xdg-portal"] }
serde = { version = "=1.0.229", features = ["derive"] }
tokio = { version = "=1.54.1", features = ["rt-multi-thread", "sync"] }
