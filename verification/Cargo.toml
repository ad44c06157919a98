[package]
name = "systemd_gtk"
version = "0.1.0"
edition = "2021"
publish = false

[dependencies]
systemctl = "=0.5.0"
gtk4 = "=0.9.7"
libadwaita = { version = "=0.7.2", features = ["v1_5"] }
async-channel = "=2.5.0"
