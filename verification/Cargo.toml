[package]
name = "saola-files"
version = "0.1.0"
edition = "2021"
publish = false

[dependencies]
async-trait = "0.1"
futures = "0.3"
image = { version = "0.25", default-features = false, features = ["bmp", "gif", "ico", "jpeg", "png", "tiff", "webp"] }
inotify = { version = "*", features = ["stream"] }
png = "0.18"
russh = { version = "*", default-features = false, features = ["ring", "rsa"] }
russh-sftp = "2"
tokio = { version = "1", features = ["full"] }
toml = "*"
xdg-mime = "0.4"
zbus = { version = "5", default-features = false, features = ["tokio"] }
