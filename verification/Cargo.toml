[package]
name = "vizardra"
version = "0.1.0"
edition = "2021"
publish = false

[dependencies]
iced = { version = "=0.14.0", default-features = false, features = ["tiny-skia", "canvas", "svg", "advanced", "thread-pool", "x11"] }
iced_aw = { version = "=0.14.1", default-features = false, features = ["menu"] }
rfd = { version = "=0.17.2", default-features = false, features = ["xdg-portal"] }
serde = { version = "=1.0.229", features = ["derive"] }
serde_json = "=1.0.154"
