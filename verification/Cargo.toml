[package]
name = "kite"
version = "0.1.0"
edition = "2021"
publish = false

[dependencies]
anyhow = "1"
base64 = "0.22"
crossterm = { version = "0.28", features = ["event-stream"] }
dirs = "5"
env_logger = "0.11"
futures = "0.3"
image = { version = "0.25", default-features = false, features = ["png", "jpeg", "gif", "bmp", "webp", "tiff", "ico"] }
libloading = "0.8"
log = "0.4"
mlua = { version = "0.10", features = ["lua54", "vendored"] }
notify = "6"
ratatui = "0.29"
serde = { version = "1", features = ["derive"] }
syntect = { version = "5", default-features = false, features = ["default-fancy"] }
thiserror = "1"
tokio = { version = "1", features = ["full"] }
toml = "0.8"
