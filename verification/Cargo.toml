[package]
name = "captura"
version = "0.1.0"
edition = "2021"
publish = false

[dependencies]
chrono = "*"
core-graphics = "*"
cpal = "*"
ctrlc = "*"
dirs = "*"
env_logger = "*"
gif = "*"
global-hotkey = "*"
image = "*"
libc = "*"
log = "*"
notify = "*"
serde = { version = "*", features = ["derive"] }
tao = "*"
thiserror = "*"
toml = "*"
tray-icon = "*"

[dev-dependencies]
tempfile = "*"
